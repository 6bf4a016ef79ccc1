//! Reduction of the transfer tool's speed report to the text that is parsed
//! as a rate.
use vstd::prelude::*;
use crate::text::{chars_of, push_char, trim, trim_bounds};

verus! {

/// `s` with every decimal comma written as a decimal point.
pub open spec fn commas_to_points(s: Seq<char>) -> Seq<char> {
    s.map_values(|c: char| if c == ',' { '.' } else { c })
}

/// The transfer tool's report, trimmed, with decimal commas made points.
pub fn normalize_rate(report: &str) -> (r: String)
    ensures
        r@ == commas_to_points(trim(report@)),
{
    let v = chars_of(report);
    let (a, b) = trim_bounds(&v, 0, v.len());
    assert(v@.subrange(0, v.len() as int) == v@);
    let ghost t = v@.subrange(a as int, b as int);
    let mut r = String::new();
    let mut i: usize = a;
    while i < b
        invariant
            a <= i <= b <= v.len(),
            t == v@.subrange(a as int, b as int),
            r@ == commas_to_points(t.take(i - a)),
        decreases b - i,
    {
        let c = v[i];
        push_char(&mut r, if c == ',' { '.' } else { c });
        assert(t.take(i + 1 - a) == t.take(i - a).push(c));
        assert(commas_to_points(t.take(i + 1 - a)) == commas_to_points(t.take(i - a)).push(
            if c == ',' { '.' } else { c },
        ));
        i = i + 1;
    }
    assert(t.take(b - a) == t);
    r
}

} // verus!
