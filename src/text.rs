use vstd::prelude::*;
use vstd::std_specs::iter::IteratorSpec;
use vstd::utf8::{encode_scalar, encode_utf8};

verus! {

/// Characters kept as they are in an OpenMetrics name: ASCII letters, digits and `:`.
pub open spec fn is_name_char(c: char) -> bool {
    ('a' <= c && c <= 'z') || ('A' <= c && c <= 'Z') || ('0' <= c && c <= '9') || c == ':'
}

pub open spec fn is_ascii_digit(c: char) -> bool {
    '0' <= c && c <= '9'
}

/// How the sanitized text written so far ends.
#[derive(Clone, Copy, PartialEq, Eq, Structural)]
pub enum Tail {
    /// Not with an underscore.
    Other,
    /// With an underscore copied from the input.
    Literal,
    /// With an underscore written in place of invalid characters.
    Replacement,
}

/// Sanitized text of `s` after text that ends as `tail` says. A name character is copied;
/// a literal `_` is copied unless it follows a replacement underscore; a run of other
/// characters becomes one `_`, or nothing where the text already ends in `_`.
pub open spec fn sanitize_from(s: Seq<char>, tail: Tail) -> Seq<char>
    decreases s.len(),
{
    if s.len() == 0 {
        seq![]
    } else if is_name_char(s[0]) {
        seq![s[0]] + sanitize_from(s.drop_first(), Tail::Other)
    } else if s[0] == '_' {
        if tail == Tail::Replacement {
            sanitize_from(s.drop_first(), Tail::Replacement)
        } else {
            seq!['_'] + sanitize_from(s.drop_first(), Tail::Literal)
        }
    } else if tail != Tail::Other {
        sanitize_from(s.drop_first(), tail)
    } else {
        seq!['_'] + sanitize_from(s.drop_first(), Tail::Replacement)
    }
}

/// The legal OpenMetrics name for `s`: a leading digit gets an `_` in front, and each run
/// of invalid characters becomes one `_`, merged with an underscore next to it.
pub open spec fn sanitized(s: Seq<char>) -> Seq<char> {
    if s.len() > 0 && is_ascii_digit(s[0]) {
        seq!['_'] + sanitize_from(s, Tail::Replacement)
    } else {
        sanitize_from(s, Tail::Other)
    }
}

/// Relies on std's `String::push`: appends one character.
#[verifier::external_body]
pub(crate) fn push_char(out: &mut String, c: char)
    ensures
        final(out)@ == old(out)@.push(c),
{
    out.push(c)
}

/// Writes the sanitized form of `name` to the end of `f`.
pub fn write_sanitized_name(f: &mut String, name: &str)
    ensures
        final(f)@ == old(f)@ + sanitized(name@),
{
    broadcast use vstd::string::group_string_axioms;

    let ghost start = f@;
    let mut tail = Tail::Other;
    let n = name.unicode_len();
    if n > 0 {
        let c0 = name.get_char(0);
        if '0' <= c0 && c0 <= '9' {
            push_char(f, '_');
            tail = Tail::Replacement;
            assert(f@ + sanitize_from(name@, tail) =~= start + (seq!['_'] + sanitize_from(name@, tail)));
        }
    }
    assert(name@.skip(0) =~= name@);
    let mut it = name.chars();
    let ghost mut i: int = 0;
    loop
        invariant
            0 <= i <= name@.len(),
            it.remaining() == name@.skip(i),
            it.obeys_prophetic_iter_laws(),
            f@ + sanitize_from(name@.skip(i), tail) == start + sanitized(name@),
        ensures
            f@ == start + sanitized(name@),
        decreases name@.len() - i,
    {
        let ghost rest = name@.skip(i);
        match it.next() {
            None => {
                assert(rest.len() == 0);
                assert(f@ + sanitize_from(rest, tail) =~= f@);
                break;
            },
            Some(c) => {
                assert(rest.len() > 0 && c == rest[0]);
                assert(rest.drop_first() =~= name@.skip(i + 1));
                let ghost f0 = f@;
                let ghost t0 = tail;
                if ('a' <= c && c <= 'z') || ('A' <= c && c <= 'Z') || ('0' <= c && c <= '9')
                    || c == ':' {
                    push_char(f, c);
                    tail = Tail::Other;
                } else if c == '_' {
                    if tail != Tail::Replacement {
                        push_char(f, '_');
                        tail = Tail::Literal;
                    }
                } else if tail == Tail::Other {
                    push_char(f, '_');
                    tail = Tail::Replacement;
                }
                proof {
                    let more = sanitize_from(rest.drop_first(), tail);
                    if f@ != f0 {
                        assert(f@ + more =~= f0 + (seq![f@.last()] + more));
                    }
                    i = i + 1;
                }
            },
        }
    }
}

/// Every character of `sanitize_from(s, t)` is a name character or `_`. Where `s` holds no
/// `_`, no two `_` stand side by side, and after a replacement or literal underscore the
/// text goes on with no `_`.
proof fn lemma_sanitize_from_shape(s: Seq<char>, t: Tail)
    ensures
        ({
            let r = sanitize_from(s, t);
            &&& forall|i: int| 0 <= i < r.len() ==> is_name_char(#[trigger] r[i]) || r[i] == '_'
            &&& (forall|i: int| 0 <= i < s.len() ==> #[trigger] s[i] != '_') ==> {
                &&& forall|i: int| 0 <= i < r.len() - 1 ==> !(#[trigger] r[i] == '_' && r[i + 1] == '_')
                &&& (t != Tail::Other && r.len() > 0 ==> r[0] != '_')
            }
        }),
    decreases s.len(),
{
    if s.len() > 0 {
        let u = s.drop_first();
        assert forall|i: int| 0 <= i < u.len() implies #[trigger] u[i] == s[i + 1] by {}
        let r = sanitize_from(s, t);
        if is_name_char(s[0]) {
            lemma_sanitize_from_shape(u, Tail::Other);
            let q = sanitize_from(u, Tail::Other);
            assert(r == seq![s[0]] + q);
            assert forall|i: int| 0 <= i < r.len() implies is_name_char(#[trigger] r[i]) || r[i] == '_' by {
                if i > 0 {
                    assert(r[i] == q[i - 1]);
                }
            }
            if forall|i: int| 0 <= i < s.len() ==> #[trigger] s[i] != '_' {
                assert forall|i: int| 0 <= i < u.len() implies #[trigger] u[i] != '_' by {
                    assert(s[i + 1] != '_');
                }
                assert forall|i: int| 0 <= i < r.len() - 1 implies !(#[trigger] r[i] == '_' && r[i + 1] == '_') by {
                    if i > 0 {
                        assert(r[i] == q[i - 1] && r[i + 1] == q[i]);
                    }
                }
            }
        } else if s[0] == '_' {
            let t2 = if t == Tail::Replacement { Tail::Replacement } else { Tail::Literal };
            lemma_sanitize_from_shape(u, t2);
            let q = sanitize_from(u, t2);
            if t == Tail::Replacement {
                assert(r == q);
            } else {
                assert(r == seq!['_'] + q);
                assert forall|i: int| 0 <= i < r.len() implies is_name_char(#[trigger] r[i]) || r[i] == '_' by {
                    if i > 0 {
                        assert(r[i] == q[i - 1]);
                    }
                }
            }
            assert(!(forall|i: int| 0 <= i < s.len() ==> #[trigger] s[i] != '_')) by {
                assert(s[0] == '_');
            }
        } else if t != Tail::Other {
            lemma_sanitize_from_shape(u, t);
            if forall|i: int| 0 <= i < s.len() ==> #[trigger] s[i] != '_' {
                assert forall|i: int| 0 <= i < u.len() implies #[trigger] u[i] != '_' by {
                    assert(s[i + 1] != '_');
                }
            }
        } else {
            lemma_sanitize_from_shape(u, Tail::Replacement);
            let q = sanitize_from(u, Tail::Replacement);
            assert(r == seq!['_'] + q);
            assert forall|i: int| 0 <= i < r.len() implies is_name_char(#[trigger] r[i]) || r[i] == '_' by {
                if i > 0 {
                    assert(r[i] == q[i - 1]);
                }
            }
            if forall|i: int| 0 <= i < s.len() ==> #[trigger] s[i] != '_' {
                assert forall|i: int| 0 <= i < u.len() implies #[trigger] u[i] != '_' by {
                    assert(s[i + 1] != '_');
                }
                assert forall|i: int| 0 <= i < r.len() - 1 implies !(#[trigger] r[i] == '_' && r[i + 1] == '_') by {
                    if i > 0 {
                        assert(r[i] == q[i - 1] && r[i + 1] == q[i]);
                    } else {
                        assert(r[1] == q[0]);
                    }
                }
            }
        }
    }
}

/// A sanitized name holds only ASCII letters, digits, `:` and `_`, and does not start
/// with a digit. Where the input holds no underscore, every underscore of the result
/// stands for replaced characters, and no two of them stand side by side.
pub proof fn lemma_sanitized_is_legal(s: Seq<char>)
    ensures
        ({
            let r = sanitized(s);
            &&& forall|i: int| 0 <= i < r.len() ==> is_name_char(#[trigger] r[i]) || r[i] == '_'
            &&& r.len() > 0 ==> !is_ascii_digit(r[0])
            &&& (forall|i: int| 0 <= i < s.len() ==> #[trigger] s[i] != '_') ==> forall|i: int|
                0 <= i < r.len() - 1 ==> !(#[trigger] r[i] == '_' && r[i + 1] == '_')
        }),
{
    if s.len() > 0 && is_ascii_digit(s[0]) {
        lemma_sanitize_from_shape(s, Tail::Replacement);
        let r = sanitized(s);
        let q = sanitize_from(s, Tail::Replacement);
        assert(r == seq!['_'] + q);
        assert(is_name_char(s[0]));
        assert(q == seq![s[0]] + sanitize_from(s.drop_first(), Tail::Other));
        assert(q.len() > 0 && q[0] == s[0]);
        if forall|i: int| 0 <= i < s.len() ==> #[trigger] s[i] != '_' {
            assert forall|i: int| 0 <= i < r.len() - 1 implies !(#[trigger] r[i] == '_' && r[i + 1] == '_') by {
                if i > 0 {
                    assert(r[i] == q[i - 1] && r[i + 1] == q[i]);
                } else {
                    assert(r[1] == q[0]);
                }
            }
        }
        assert forall|i: int| 0 <= i < r.len() implies is_name_char(#[trigger] r[i]) || r[i] == '_' by {
            if i > 0 {
                assert(r[i] == q[i - 1]);
            }
        }
    } else {
        lemma_sanitize_from_shape(s, Tail::Other);
    }
}

proof fn lemma_sanitize_from_legal(s: Seq<char>, t: Tail)
    requires
        t != Tail::Replacement,
        forall|i: int| 0 <= i < s.len() ==> is_name_char(#[trigger] s[i]) || s[i] == '_',
    ensures
        sanitize_from(s, t) == s,
    decreases s.len(),
{
    if s.len() > 0 {
        let u = s.drop_first();
        assert forall|i: int| 0 <= i < u.len() implies is_name_char(#[trigger] u[i]) || u[i] == '_' by {
            assert(u[i] == s[i + 1]);
        }
        assert(is_name_char(s[0]) || s[0] == '_');
        if is_name_char(s[0]) {
            lemma_sanitize_from_legal(u, Tail::Other);
        } else {
            lemma_sanitize_from_legal(u, Tail::Literal);
        }
        assert(s =~= seq![s[0]] + u);
    }
}

/// A name that is already legal, underscores included, is left as it is.
pub proof fn lemma_sanitize_legal_name(s: Seq<char>)
    requires
        forall|i: int| 0 <= i < s.len() ==> is_name_char(#[trigger] s[i]) || s[i] == '_',
        s.len() > 0 ==> !is_ascii_digit(s[0]),
    ensures
        sanitized(s) == s,
{
    lemma_sanitize_from_legal(s, Tail::Other);
}

/// The two-character escape of `c` in a label value or HELP text, or `c` itself.
pub open spec fn escape_char(c: char) -> Seq<char> {
    if c == '\\' {
        seq!['\\', '\\']
    } else if c == '"' {
        seq!['\\', '"']
    } else if c == '\n' {
        seq!['\\', 'n']
    } else {
        seq![c]
    }
}

pub open spec fn needs_escape(c: char) -> bool {
    c == '\\' || c == '"' || c == '\n'
}

/// `s` with `\`, `"` and the line feed escaped.
pub open spec fn escaped(s: Seq<char>) -> Seq<char>
    decreases s.len(),
{
    if s.len() == 0 {
        seq![]
    } else {
        escape_char(s[0]) + escaped(s.drop_first())
    }
}

/// The inverse of the three escapes.
pub open spec fn unescaped(t: Seq<char>) -> Seq<char>
    decreases t.len(),
{
    if t.len() == 0 {
        seq![]
    } else if t[0] == '\\' && t.len() >= 2 {
        if t[1] == 'n' {
            seq!['\n'] + unescaped(t.skip(2))
        } else {
            seq![t[1]] + unescaped(t.skip(2))
        }
    } else {
        seq![t[0]] + unescaped(t.drop_first())
    }
}

/// Un-escaping an escaped string gives the string back.
pub proof fn lemma_unescape_escaped(s: Seq<char>)
    ensures
        unescaped(escaped(s)) == s,
    decreases s.len(),
{
    if s.len() > 0 {
        lemma_unescape_escaped(s.drop_first());
        let e = escaped(s);
        let rest = escaped(s.drop_first());
        let c = s[0];
        assert(e == escape_char(c) + rest);
        if needs_escape(c) {
            assert(e.skip(2) =~= rest);
        } else {
            assert(e.drop_first() =~= rest);
        }
        assert(s =~= seq![c] + s.drop_first());
    }
}

/// A string without `\`, `"` or a line feed is its own escape.
pub proof fn lemma_escape_plain(s: Seq<char>)
    requires
        forall|i: int| 0 <= i < s.len() ==> !needs_escape(#[trigger] s[i]),
    ensures
        escaped(s) == s,
    decreases s.len(),
{
    if s.len() > 0 {
        assert(!needs_escape(s[0]));
        lemma_escape_plain(s.drop_first());
        assert(s =~= seq![s[0]] + s.drop_first());
    }
}

/// The bytes of the three characters that are escaped.
pub open spec fn is_escape_byte(b: u8) -> bool {
    b == 92u8 || b == 34u8 || b == 10u8
}

/// Relies on memchr's `memchr3`: the index of the first byte of `haystack` that equals
/// one of the three needles, or `None` when no byte does.
#[verifier::external_body]
fn memchr3(n1: u8, n2: u8, n3: u8, haystack: &[u8]) -> (r: Option<usize>)
    ensures
        match r {
            Some(i) => {
                &&& i < haystack@.len()
                &&& (haystack@[i as int] == n1 || haystack@[i as int] == n2 || haystack@[i as int] == n3)
                &&& forall|j: int| 0 <= j < i ==> !(#[trigger] haystack@[j] == n1 || haystack@[j] == n2 || haystack@[j] == n3)
            },
            None => forall|j: int|
                0 <= j < haystack@.len() ==> !(#[trigger] haystack@[j] == n1 || haystack@[j] == n2 || haystack@[j] == n3),
        },
{
    memchr::memchr3(n1, n2, n3, haystack)
}

/// A string whose UTF-8 bytes hold none of the escaped bytes holds none of the escaped
/// characters.
proof fn lemma_plain_bytes_plain_chars(s: Seq<char>)
    requires
        forall|j: int| 0 <= j < encode_utf8(s).len() ==> !is_escape_byte(#[trigger] encode_utf8(s)[j]),
    ensures
        forall|i: int| 0 <= i < s.len() ==> !needs_escape(#[trigger] s[i]),
    decreases s.len(),
{
    if s.len() > 0 {
        let e = encode_utf8(s);
        let head = encode_scalar(s[0] as u32);
        let rest = encode_utf8(s.drop_first());
        assert(e == head + rest);
        assert forall|j: int| 0 <= j < rest.len() implies !is_escape_byte(#[trigger] rest[j]) by {
            assert(rest[j] == e[j + head.len()]);
        }
        lemma_plain_bytes_plain_chars(s.drop_first());
        if needs_escape(s[0]) {
            let v = s[0] as u32;
            assert(v == 92u32 || v == 34u32 || v == 10u32);
            assert((92u32 & 0x7Fu32) as u8 == 92u8) by (bit_vector);
            assert((34u32 & 0x7Fu32) as u8 == 34u8) by (bit_vector);
            assert((10u32 & 0x7Fu32) as u8 == 10u8) by (bit_vector);
            assert(head.len() == 1 && is_escape_byte(head[0]));
            assert(e[0] == head[0]);
        }
        assert forall|i: int| 0 <= i < s.len() implies !needs_escape(#[trigger] s[i]) by {
            if i > 0 {
                assert(s[i] == s.drop_first()[i - 1]);
            }
        }
    }
}

/// Writes `value` to the end of `f` with `\`, `"` and the line feed escaped.
pub fn write_escaped(f: &mut String, value: &str)
    ensures
        final(f)@ == old(f)@ + escaped(value@),
{
    broadcast use vstd::string::group_string_axioms;

    let ghost start = f@;
    if memchr3(92u8, 34u8, 10u8, value.as_bytes()).is_none() {
        proof {
            lemma_plain_bytes_plain_chars(value@);
            lemma_escape_plain(value@);
        }
        f.append(value);
        return;
    }
    let mut it = value.chars();
    let ghost mut i: int = 0;
    assert(value@.skip(0) =~= value@);
    loop
        invariant
            0 <= i <= value@.len(),
            it.remaining() == value@.skip(i),
            it.obeys_prophetic_iter_laws(),
            f@ + escaped(value@.skip(i)) == start + escaped(value@),
        ensures
            f@ == start + escaped(value@),
        decreases value@.len() - i,
    {
        let ghost rest = value@.skip(i);
        match it.next() {
            None => {
                assert(rest.len() == 0);
                assert(f@ + escaped(rest) =~= f@);
                break;
            },
            Some(c) => {
                assert(rest.len() > 0 && c == rest[0]);
                assert(rest.drop_first() =~= value@.skip(i + 1));
                let ghost f0 = f@;
                if c == '\\' {
                    push_char(f, '\\');
                    push_char(f, '\\');
                } else if c == '"' {
                    push_char(f, '\\');
                    push_char(f, '"');
                } else if c == '\n' {
                    push_char(f, '\\');
                    push_char(f, 'n');
                } else {
                    push_char(f, c);
                }
                proof {
                    let tail = escaped(rest.drop_first());
                    assert(f@ =~= f0 + escape_char(c));
                    assert(f@ + tail =~= f0 + (escape_char(c) + tail));
                    i = i + 1;
                }
            },
        }
    }
}

/// Byte-wise lexicographic order, the order of Rust's `str`.
pub open spec fn bytes_less(a: Seq<u8>, b: Seq<u8>) -> bool
    decreases a.len(),
{
    if a.len() == 0 {
        b.len() > 0
    } else if b.len() == 0 {
        false
    } else if a[0] != b[0] {
        a[0] < b[0]
    } else {
        bytes_less(a.drop_first(), b.drop_first())
    }
}

/// `a` sorts before `b` as strings.
pub open spec fn text_less(a: Seq<char>, b: Seq<char>) -> bool {
    bytes_less(encode_utf8(a), encode_utf8(b))
}

/// Whether `a` sorts before `b` in the byte-wise order of strings.
pub fn less_than(a: &str, b: &str) -> (r: bool)
    ensures
        r == text_less(a@, b@),
{
    let x = a.as_bytes();
    let y = b.as_bytes();
    let mut i: usize = 0;
    assert(x@.skip(0) =~= x@ && y@.skip(0) =~= y@);
    while i < x.len() && i < y.len() && x[i] == y[i]
        invariant
            i <= x@.len(),
            i <= y@.len(),
            x@ == encode_utf8(a@),
            y@ == encode_utf8(b@),
            bytes_less(x@, y@) == bytes_less(x@.skip(i as int), y@.skip(i as int)),
        decreases x@.len() - i,
    {
        assert(x@.skip(i as int).drop_first() =~= x@.skip(i + 1));
        assert(y@.skip(i as int).drop_first() =~= y@.skip(i + 1));
        i = i + 1;
    }
    if i == x.len() {
        i < y.len()
    } else if i == y.len() {
        false
    } else {
        x[i] < y[i]
    }
}

/// Whether `a` and `b` hold the same text.
pub fn text_eq(a: &str, b: &str) -> (r: bool)
    ensures
        r == (a@ == b@),
{
    let x = a.as_bytes();
    let y = b.as_bytes();
    if x.len() != y.len() {
        return false;
    }
    let mut i: usize = 0;
    while i < x.len()
        invariant
            i <= x@.len(),
            x@.len() == y@.len(),
            x@ == encode_utf8(a@),
            y@ == encode_utf8(b@),
            forall|j: int| 0 <= j < i ==> x@[j] == y@[j],
        decreases x@.len() - i,
    {
        if x[i] != y[i] {
            return false;
        }
        i = i + 1;
    }
    proof {
        assert(x@ =~= y@);
        vstd::utf8::encode_utf8_decode_utf8(a@);
        vstd::utf8::encode_utf8_decode_utf8(b@);
    }
    true
}

} // verus!
