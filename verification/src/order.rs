//! The order of texts by their characters.

use vstd::prelude::*;

use crate::text::chars_of;

verus! {

/// Whether `a` comes before `b` in the order of their characters, from `i` on.
pub open spec fn before_from(a: Seq<char>, b: Seq<char>, i: int) -> bool
    decreases b.len() - i,
{
    if i < 0 || i >= b.len() {
        false
    } else if i >= a.len() {
        true
    } else if a[i] != b[i] {
        a[i] < b[i]
    } else {
        before_from(a, b, i + 1)
    }
}

/// Whether `a` comes before `b` in the order of their characters.
pub open spec fn text_before(a: Seq<char>, b: Seq<char>) -> bool {
    before_from(a, b, 0)
}

/// Tests whether `a` comes before `b` in the order of their characters.
pub fn text_is_before(a: &str, b: &str) -> (r: bool)
    ensures
        r == text_before(a@, b@),
{
    let left = chars_of(a);
    let right = chars_of(b);
    let mut i: usize = 0;
    while i < right.len()
        invariant
            i <= right.len(),
            left@ == a@,
            right@ == b@,
            before_from(a@, b@, i as int) == text_before(a@, b@),
        decreases right.len() - i,
    {
        if i >= left.len() {
            return true;
        }
        if left[i] != right[i] {
            return left[i] < right[i];
        }
        i += 1;
    }
    false
}

} // verus!
