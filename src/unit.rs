use vstd::prelude::*;
use vstd::std_specs::iter::IteratorSpec;
use crate::text::text_eq;

verus! {

pub open spec fn time_unit(u: Seq<char>) -> Option<Seq<char>> {
    if u == "d"@ {
        Some("days"@)
    } else if u == "h"@ {
        Some("hours"@)
    } else if u == "min"@ {
        Some("minutes"@)
    } else if u == "s"@ {
        Some("seconds"@)
    } else if u == "ms"@ {
        Some("milliseconds"@)
    } else if u == "us"@ {
        Some("microseconds"@)
    } else if u == "ns"@ {
        Some("nanoseconds"@)
    } else {
        None
    }
}

pub open spec fn binary_bytes_unit(u: Seq<char>) -> Option<Seq<char>> {
    if u == "By"@ {
        Some("bytes"@)
    } else if u == "KiBy"@ {
        Some("kibibytes"@)
    } else if u == "MiBy"@ {
        Some("mebibytes"@)
    } else if u == "GiBy"@ {
        Some("gibibytes"@)
    } else if u == "TiBy"@ {
        Some("tibibytes"@)
    } else if u == "KBy"@ {
        Some("kilobytes"@)
    } else if u == "MBy"@ {
        Some("megabytes"@)
    } else if u == "GBy"@ {
        Some("gigabytes"@)
    } else if u == "TBy"@ {
        Some("terabytes"@)
    } else {
        None
    }
}

pub open spec fn short_bytes_unit(u: Seq<char>) -> Option<Seq<char>> {
    if u == "B"@ {
        Some("bytes"@)
    } else if u == "KB"@ {
        Some("kilobytes"@)
    } else if u == "MB"@ {
        Some("megabytes"@)
    } else if u == "GB"@ {
        Some("gigabytes"@)
    } else if u == "TB"@ {
        Some("terabytes"@)
    } else {
        None
    }
}

pub open spec fn si_unit(u: Seq<char>) -> Option<Seq<char>> {
    if u == "m"@ {
        Some("meters"@)
    } else if u == "V"@ {
        Some("volts"@)
    } else if u == "A"@ {
        Some("amperes"@)
    } else if u == "J"@ {
        Some("joules"@)
    } else if u == "W"@ {
        Some("watts"@)
    } else if u == "g"@ {
        Some("grams"@)
    } else {
        None
    }
}

pub open spec fn misc_unit(u: Seq<char>) -> Option<Seq<char>> {
    if u == "Cel"@ {
        Some("celsius"@)
    } else if u == "Hz"@ {
        Some("hertz"@)
    } else if u == "1"@ {
        Some("ratio"@)
    } else if u == "%"@ {
        Some("percent"@)
    } else {
        None
    }
}

/// The long OpenMetrics name of a unit code, where the table has one.
pub open spec fn unit_long_name(u: Seq<char>) -> Option<Seq<char>> {
    if time_unit(u) is Some {
        time_unit(u)
    } else if binary_bytes_unit(u) is Some {
        binary_bytes_unit(u)
    } else if short_bytes_unit(u) is Some {
        short_bytes_unit(u)
    } else if si_unit(u) is Some {
        si_unit(u)
    } else {
        misc_unit(u)
    }
}

/// The long name of a unit in the denominator of a compound `A/B` unit.
pub open spec fn per_unit_long_name(u: Seq<char>) -> Option<Seq<char>> {
    if u == "s"@ {
        Some("second"@)
    } else if u == "m"@ {
        Some("minute"@)
    } else if u == "h"@ {
        Some("hour"@)
    } else if u == "d"@ {
        Some("day"@)
    } else if u == "w"@ {
        Some("week"@)
    } else if u == "mo"@ {
        Some("month"@)
    } else if u == "y"@ {
        Some("year"@)
    } else {
        None
    }
}

/// Unit codes whose long name is not put in front of `_per_`.
pub open spec fn not_applicable_on_per_unit(u: Seq<char>) -> bool {
    u == "1"@ || u == "d"@ || u == "h"@ || u == "min"@ || u == "s"@ || u == "ms"@ || u == "us"@ || u == "ns"@
}

/// Index of the first `/` in `u`.
pub open spec fn first_slash(u: Seq<char>) -> Option<int>
    decreases u.len(),
{
    if u.len() == 0 {
        None
    } else if u[0] == '/' {
        Some(0)
    } else {
        match first_slash(u.drop_first()) {
            Some(k) => Some(k + 1),
            None => None,
        }
    }
}

/// The suffix that a metric with unit code `u` gets, if any: a direct match of the unit
/// table, or for `A/B` either `per_<B>` or `<A>_per_<B>`.
pub open spec fn unit_suffix(u: Seq<char>) -> Option<Seq<char>> {
    if u.len() == 0 {
        None
    } else if unit_long_name(u) is Some {
        unit_long_name(u)
    } else {
        match first_slash(u) {
            None => None,
            Some(k) => {
                let first = u.take(k);
                match per_unit_long_name(u.skip(k + 1)) {
                    None => None,
                    Some(second) => if !not_applicable_on_per_unit(first) && unit_long_name(first) is Some {
                        Some(unit_long_name(first)->0 + "_per_"@ + second)
                    } else {
                        Some("per_"@ + second)
                    },
                }
            },
        }
    }
}

pub open spec fn opt_view(r: Option<&str>) -> Option<Seq<char>> {
    match r {
        Some(x) => Some(x@),
        None => None,
    }
}

fn get_time_unit(u: &str) -> (r: Option<&'static str>)
    ensures
        opt_view(r) == time_unit(u@),
{
    if text_eq(u, "d") {
        Some("days")
    } else if text_eq(u, "h") {
        Some("hours")
    } else if text_eq(u, "min") {
        Some("minutes")
    } else if text_eq(u, "s") {
        Some("seconds")
    } else if text_eq(u, "ms") {
        Some("milliseconds")
    } else if text_eq(u, "us") {
        Some("microseconds")
    } else if text_eq(u, "ns") {
        Some("nanoseconds")
    } else {
        None
    }
}

fn get_binary_bytes_unit(u: &str) -> (r: Option<&'static str>)
    ensures
        opt_view(r) == binary_bytes_unit(u@),
{
    if text_eq(u, "By") {
        Some("bytes")
    } else if text_eq(u, "KiBy") {
        Some("kibibytes")
    } else if text_eq(u, "MiBy") {
        Some("mebibytes")
    } else if text_eq(u, "GiBy") {
        Some("gibibytes")
    } else if text_eq(u, "TiBy") {
        Some("tibibytes")
    } else if text_eq(u, "KBy") {
        Some("kilobytes")
    } else if text_eq(u, "MBy") {
        Some("megabytes")
    } else if text_eq(u, "GBy") {
        Some("gigabytes")
    } else if text_eq(u, "TBy") {
        Some("terabytes")
    } else {
        None
    }
}

fn get_short_bytes_unit(u: &str) -> (r: Option<&'static str>)
    ensures
        opt_view(r) == short_bytes_unit(u@),
{
    if text_eq(u, "B") {
        Some("bytes")
    } else if text_eq(u, "KB") {
        Some("kilobytes")
    } else if text_eq(u, "MB") {
        Some("megabytes")
    } else if text_eq(u, "GB") {
        Some("gigabytes")
    } else if text_eq(u, "TB") {
        Some("terabytes")
    } else {
        None
    }
}

fn get_si_unit(u: &str) -> (r: Option<&'static str>)
    ensures
        opt_view(r) == si_unit(u@),
{
    if text_eq(u, "m") {
        Some("meters")
    } else if text_eq(u, "V") {
        Some("volts")
    } else if text_eq(u, "A") {
        Some("amperes")
    } else if text_eq(u, "J") {
        Some("joules")
    } else if text_eq(u, "W") {
        Some("watts")
    } else if text_eq(u, "g") {
        Some("grams")
    } else {
        None
    }
}

fn get_misc_unit(u: &str) -> (r: Option<&'static str>)
    ensures
        opt_view(r) == misc_unit(u@),
{
    if text_eq(u, "Cel") {
        Some("celsius")
    } else if text_eq(u, "Hz") {
        Some("hertz")
    } else if text_eq(u, "1") {
        Some("ratio")
    } else if text_eq(u, "%") {
        Some("percent")
    } else {
        None
    }
}

fn get_unit_name(u: &str) -> (r: Option<&'static str>)
    ensures
        opt_view(r) == unit_long_name(u@),
{
    let r = get_time_unit(u);
    if r.is_some() {
        return r;
    }
    let r = get_binary_bytes_unit(u);
    if r.is_some() {
        return r;
    }
    let r = get_short_bytes_unit(u);
    if r.is_some() {
        return r;
    }
    let r = get_si_unit(u);
    if r.is_some() {
        return r;
    }
    get_misc_unit(u)
}

fn get_per_unit_name(u: &str) -> (r: Option<&'static str>)
    ensures
        opt_view(r) == per_unit_long_name(u@),
{
    if text_eq(u, "s") {
        Some("second")
    } else if text_eq(u, "m") {
        Some("minute")
    } else if text_eq(u, "h") {
        Some("hour")
    } else if text_eq(u, "d") {
        Some("day")
    } else if text_eq(u, "w") {
        Some("week")
    } else if text_eq(u, "mo") {
        Some("month")
    } else if text_eq(u, "y") {
        Some("year")
    } else {
        None
    }
}

fn is_not_applicable_on_per_unit(u: &str) -> (r: bool)
    ensures
        r == not_applicable_on_per_unit(u@),
{
    text_eq(u, "1") || text_eq(u, "d") || text_eq(u, "h") || text_eq(u, "min") || text_eq(u, "s") || text_eq(u, "ms") || text_eq(u, "us") || text_eq(u, "ns")
}

proof fn lemma_first_slash(u: Seq<char>, k: int)
    requires
        0 <= k <= u.len(),
        forall|j: int| 0 <= j < k ==> u[j] != '/',
    ensures
        k < u.len() && u[k] == '/' ==> first_slash(u) == Some(k),
        k == u.len() ==> first_slash(u) is None,
    decreases k,
{
    if k > 0 {
        lemma_first_slash(u.drop_first(), k - 1);
    }
}

/// Finds the first `/` in `u`.
fn find_slash(u: &str) -> (r: Option<usize>)
    ensures
        match r {
            Some(k) => first_slash(u@) == Some(k as int) && k < u@.len(),
            None => first_slash(u@) is None,
        },
{
    broadcast use vstd::string::group_string_axioms;

    let n = u.unicode_len();
    let mut it = u.chars();
    let mut i: usize = 0;
    assert(u@.skip(0) =~= u@);
    loop
        invariant
            i <= u@.len(),
            n == u@.len(),
            it.remaining() == u@.skip(i as int),
            it.obeys_prophetic_iter_laws(),
            forall|j: int| 0 <= j < i ==> u@[j] != '/',
        decreases u@.len() - i,
    {
        let ghost rest = u@.skip(i as int);
        match it.next() {
            None => {
                proof {
                    lemma_first_slash(u@, i as int);
                }
                return None;
            },
            Some(c) => {
                assert(rest[0] == u@[i as int]);
                assert(rest.drop_first() =~= u@.skip(i + 1));
                if c == '/' {
                    proof {
                        lemma_first_slash(u@, i as int);
                    }
                    return Some(i);
                }
                i = i + 1;
            },
        }
    }
}

/// The OpenMetrics suffix for the unit code `unit`, or `None` where the unit gets none.
pub fn get_unit_suffixes(unit: &str) -> (r: Option<String>)
    ensures
        match r {
            Some(s) => unit_suffix(unit@) == Some(s@),
            None => unit_suffix(unit@) is None,
        },
{
    if unit.is_empty() {
        return None;
    }
    if let Some(matched) = get_unit_name(unit) {
        return Some(matched.to_owned());
    }
    let n = unit.unicode_len();
    match find_slash(unit) {
        None => None,
        Some(k) => {
            let first = unit.substring_char(0, k);
            let second = unit.substring_char(k + 1, n);
            assert(first@ == unit@.take(k as int));
            assert(second@ =~= unit@.skip(k + 1));
            match get_per_unit_name(second) {
                None => None,
                Some(second_part) => {
                    let mut out = String::new();
                    if !is_not_applicable_on_per_unit(first) {
                        if let Some(first_part) = get_unit_name(first) {
                            out.append(first_part);
                            out.append("_per_");
                            out.append(second_part);
                            return Some(out);
                        }
                    }
                    out.append("per_");
                    out.append(second_part);
                    Some(out)
                },
            }
        },
    }
}

} // verus!
