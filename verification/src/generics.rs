//! Searching a list for its largest element.

use vstd::prelude::*;

verus! {

/// The largest element of a non-empty list: it occurs in the list, and no
/// element exceeds it.
pub fn largest_num(list: &Vec<i32>) -> (r: i32)
    requires
        list@.len() > 0,
    ensures
        list@.contains(r),
        forall|k: int| 0 <= k < list@.len() ==> list@[k] <= r,
{
    let mut largest = list[0];
    let mut i: usize = 1;
    while i < list.len()
        invariant
            1 <= i <= list@.len(),
            list@.contains(largest),
            forall|k: int| 0 <= k < i ==> list@[k] <= largest,
        decreases list@.len() - i,
    {
        if list[i] > largest {
            largest = list[i];
            proof {
                assert(list@.contains(largest));
            }
        }
        i += 1;
    }
    largest
}

} // verus!
