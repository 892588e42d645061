use vstd::prelude::*;
use vstd::std_specs::iter::IteratorSpec;

verus! {

pub open spec fn digit_char(d: nat) -> char {
    if d == 0 {
        '0'
    } else if d == 1 {
        '1'
    } else if d == 2 {
        '2'
    } else if d == 3 {
        '3'
    } else if d == 4 {
        '4'
    } else if d == 5 {
        '5'
    } else if d == 6 {
        '6'
    } else if d == 7 {
        '7'
    } else if d == 8 {
        '8'
    } else {
        '9'
    }
}

/// Decimal digits of `n`, without leading zeros.
pub open spec fn decimal(n: nat) -> Seq<char>
    decreases n,
{
    if n < 10 {
        seq![digit_char(n)]
    } else {
        decimal(n / 10) + seq![digit_char(n % 10)]
    }
}

/// Decimal text of an integer: a `-` in front of a negative one.
pub open spec fn signed_decimal(i: int) -> Seq<char> {
    if i < 0 {
        seq!['-'] + decimal((-i) as nat)
    } else {
        decimal(i as nat)
    }
}

/// Relies on itoa's `Buffer::format`: the decimal text of an integer, as `Display` writes it.
#[verifier::external_body]
fn integer_text(n: i128) -> (r: String)
    ensures
        r@ == signed_decimal(n as int),
{
    itoa::Buffer::new().format(n).to_owned()
}

/// Decimal text of an unsigned 64-bit integer.
pub fn u64_text(n: u64) -> (r: String)
    ensures
        r@ == decimal(n as nat),
{
    integer_text(n as i128)
}

/// Decimal text of a signed 64-bit integer.
pub fn i64_text(n: i64) -> (r: String)
    ensures
        r@ == signed_decimal(n as int),
{
    integer_text(n as i128)
}

/// Shortest round-trip decimal text that ryu gives for the 64-bit float that
/// `Duration::new(secs, nanos).as_secs_f64()` returns: `secs` and `nanos / 10^9`, each
/// taken as a float, added in float arithmetic.
pub uninterp spec fn ryu_seconds(secs: nat, nanos: nat) -> Seq<char>;

/// Relies on ryu's `Buffer::format`, applied to the seconds of `Duration::new(secs, nanos)`
/// as a 64-bit float.
#[verifier::external_body]
fn seconds_text(secs: u64, nanos: u32) -> (r: String)
    requires
        nanos < 1_000_000_000,
    ensures
        r@ == ryu_seconds(secs as nat, nanos as nat),
{
    ryu::Buffer::new().format(std::time::Duration::new(secs, nanos).as_secs_f64()).to_owned()
}

/// `s` without a trailing `.0`, so that an integral float reads as an integer.
pub open spec fn without_point_zero(s: Seq<char>) -> Seq<char> {
    if s.len() >= 2 && s[s.len() - 2] == '.' && s[s.len() - 1] == '0' {
        s.take(s.len() - 2)
    } else {
        s
    }
}

/// Removes a trailing `.0` from the decimal text of a float.
pub fn trim_point_zero(s: &str) -> (r: String)
    ensures
        r@ == without_point_zero(s@),
{
    let n = s.unicode_len();
    if n >= 2 && s.get_char(n - 2) == '.' && s.get_char(n - 1) == '0' {
        s.substring_char(0, n - 2).to_owned()
    } else {
        s.to_owned()
    }
}

/// A point in time after the Unix epoch: whole seconds and the nanoseconds past them.
#[derive(Clone, Copy, Debug, PartialEq, Eq)]
pub struct UnixTime {
    pub secs: u64,
    pub nanos: u32,
}

impl UnixTime {
    pub open spec fn wf(&self) -> bool {
        self.nanos < 1_000_000_000
    }
}

/// The text of a timestamp: Unix epoch seconds as a float.
pub open spec fn timestamp_text(t: UnixTime) -> Seq<char> {
    without_point_zero(ryu_seconds(t.secs as nat, t.nanos as nat))
}

/// Renders `time` as Unix epoch seconds in float notation.
pub fn to_timestamp(time: UnixTime) -> (r: String)
    requires
        time.wf(),
    ensures
        r@ == timestamp_text(time),
{
    let raw = seconds_text(time.secs, time.nanos);
    trim_point_zero(raw.as_str())
}

/// A sample value: an unsigned or signed 64-bit integer, or the decimal text of a
/// 64-bit float.
#[derive(Debug)]
pub enum Number {
    U64(u64),
    I64(i64),
    Float(String),
}

/// The text that a sample value is written as.
pub open spec fn number_text(n: Number) -> Seq<char> {
    match n {
        Number::U64(v) => decimal(v as nat),
        Number::I64(v) => signed_decimal(v as int),
        Number::Float(s) => s@,
    }
}

/// Appends the text of `n` to `f`.
pub fn write_number(f: &mut String, n: &Number)
    ensures
        final(f)@ == old(f)@ + number_text(*n),
{
    match n {
        Number::U64(v) => {
            let t = u64_text(*v);
            f.append(t.as_str());
        },
        Number::I64(v) => {
            let t = i64_text(*v);
            f.append(t.as_str());
        },
        Number::Float(s) => {
            f.append(s.as_str());
        },
    }
}

/// Characters that cannot stand in the text of a float: whitespace, quotes and braces,
/// which delimit the parts of a sample line.
pub open spec fn is_float_text_char(c: char) -> bool {
    c != ' ' && c != '\t' && c != '\n' && c != '\r' && c != '\x0b' && c != '\x0c' && c != '"' && c
        != '{' && c != '}'
}

/// Text that can stand as one token of a sample line: non-empty, with none of the
/// delimiting characters.
pub open spec fn float_text_ok(s: Seq<char>) -> bool {
    s.len() > 0 && forall|i: int| 0 <= i < s.len() ==> is_float_text_char(#[trigger] s[i])
}

/// The value's text is a single token: integers always are, float text is checked.
pub open spec fn number_wf(n: Number) -> bool {
    match n {
        Number::Float(s) => float_text_ok(s@),
        _ => true,
    }
}

/// Whether the text of `n` is a single token.
pub fn number_is_valid(n: &Number) -> (r: bool)
    ensures
        r == number_wf(*n),
{
    broadcast use vstd::string::group_string_axioms;

    match n {
        Number::Float(s) => {
            let text = s.as_str();
            if text.is_empty() {
                return false;
            }
            let mut it = text.chars();
            let ghost mut i: int = 0;
            assert(text@.skip(0) =~= text@);
            loop
                invariant
                    0 <= i <= text@.len(),
                    text@ == s@,
                    s@.len() > 0,
                    *n == Number::Float(*s),
                    it.remaining() == text@.skip(i),
                    it.obeys_prophetic_iter_laws(),
                    forall|j: int| 0 <= j < i ==> is_float_text_char(#[trigger] text@[j]),
                decreases text@.len() - i,
            {
                let ghost rest = text@.skip(i);
                match it.next() {
                    None => {
                        assert(rest.len() == 0);
                        return true;
                    },
                    Some(c) => {
                        assert(c == text@[i]);
                        if c == ' ' || c == '\t' || c == '\n' || c == '\r' || c == '\x0b' || c == '\x0c'
                            || c == '"' || c == '{' || c == '}' {
                            return false;
                        }
                        proof {
                            i = i + 1;
                        }
                    },
                }
            }
        },
        _ => true,
    }
}

} // verus!
