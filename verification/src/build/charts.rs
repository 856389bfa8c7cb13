//! Text helpers of the usage charts.

use vstd::prelude::*;
use crate::text::string_of;

verus! {

/// The first `max` characters, with `…` when more follow.
pub open spec fn label_of(s: Seq<char>, max: nat) -> Seq<char> {
    if s.len() > max {
        s.take(max as int).push('…')
    } else {
        s
    }
}

/// Shortens a chart label to `max` characters (`label_of`).
pub fn truncate_label(s: &str, max: usize) -> (r: String)
    ensures
        r@ == label_of(s@, max as nat),
{
    let c = crate::text::chars_of(s);
    if c.len() > max {
        let mut v = vstd::slice::slice_to_vec(vstd::slice::slice_subrange(c.as_slice(), 0, max));
        assert(v@ =~= c@.take(max as int));
        v.push('…');
        string_of(&v)
    } else {
        string_of(&c)
    }
}

} // verus!
