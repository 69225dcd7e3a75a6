//! An ordered integer sequence with two access modes — a checked read that
//! fails with `IndexOutOfRange` and a safe read that returns an explicit
//! absent marker — plus in-place scaling of every element.

use vstd::prelude::*;

verus! {

/// The one failure an indexed read can produce: the index was not within
/// bounds of the sequence.
#[derive(Debug, Clone, Copy, PartialEq, Eq, Structural)]
pub enum VectorError {
    IndexOutOfRange,
}

/// What a checked read yields: the element when the index is in bounds,
/// `IndexOutOfRange` otherwise.
pub open spec fn read_at_spec(s: Seq<i32>, index: int) -> Result<i32, VectorError> {
    if 0 <= index < s.len() {
        Ok(s[index])
    } else {
        Err(VectorError::IndexOutOfRange)
    }
}

/// What a safe read yields: the element when the index is in bounds, the
/// absent marker otherwise.
pub open spec fn read_at_safe_spec(s: Seq<i32>, index: int) -> Option<i32> {
    if 0 <= index < s.len() {
        Some(s[index])
    } else {
        None
    }
}

/// Every element multiplied by `factor` (each product assumed to fit `i32`;
/// see `scale_in_range`).
pub open spec fn scaled(s: Seq<i32>, factor: int) -> Seq<i32> {
    Seq::new(s.len(), |k: int| (s[k] * factor) as i32)
}

/// Every element divided exactly by `factor`.
pub open spec fn unscaled(s: Seq<i32>, factor: int) -> Seq<i32> {
    Seq::new(s.len(), |k: int| (s[k] as int / factor) as i32)
}

/// No element's product with `factor` overflows an `i32`.
pub open spec fn scale_in_range(s: Seq<i32>, factor: int) -> bool {
    forall|k: int| 0 <= k < s.len() ==> i32::MIN <= #[trigger] s[k] * factor <= i32::MAX
}

/// The fixed example sequence: a literal seed `[1, 2, 3]` with one more
/// element appended.
pub fn get_vector() -> (r: Vec<i32>)
    ensures
        r@ == seq![1i32, 2i32, 3i32, 4i32],
{
    let mut v = vec![1i32, 2, 3];
    v.push(4);
    proof {
        assert(v@ =~= seq![1i32, 2i32, 3i32, 4i32]);
    }
    v
}

/// Checked read: the element at `index`, or `IndexOutOfRange` when the index
/// is not within bounds. An empty sequence always fails.
pub fn read_at(v: &Vec<i32>, index: usize) -> (r: Result<i32, VectorError>)
    ensures
        r == read_at_spec(v@, index as int),
{
    if index < v.len() {
        Ok(v[index])
    } else {
        Err(VectorError::IndexOutOfRange)
    }
}

/// Safe read: the element at `index`, or an explicit absent marker when the
/// index is not within bounds. An empty sequence always yields the marker.
pub fn read_at_safe(v: &Vec<i32>, index: usize) -> (r: Option<i32>)
    ensures
        r == read_at_safe_spec(v@, index as int),
{
    if index < v.len() {
        Some(v[index])
    } else {
        None
    }
}

/// Multiplies every element by `factor` in place, under an exclusive view of
/// the sequence; no second sequence is allocated.
pub fn scale_all(v: &mut Vec<i32>, factor: i32)
    requires
        scale_in_range(old(v)@, factor as int),
    ensures
        final(v)@ == scaled(old(v)@, factor as int),
{
    let n = v.len();
    let mut i: usize = 0;
    while i < n
        invariant
            n == v@.len(),
            v@.len() == old(v)@.len(),
            i <= n,
            scale_in_range(old(v)@, factor as int),
            forall|k: int| 0 <= k < i ==> v@[k] == scaled(old(v)@, factor as int)[k],
            forall|k: int| i <= k < n ==> v@[k] == old(v)@[k],
        decreases n - i,
    {
        v[i] = v[i] * factor;
        i += 1;
    }
    proof {
        assert(v@ =~= scaled(old(v)@, factor as int));
    }
}

/// A valid index reads the same value through the checked and the safe
/// access mode: for `0 <= index < s.len()`, `read_at` yields `Ok(x)` exactly
/// when `read_at_safe` yields `Some(x)`.
pub proof fn lemma_read_modes_agree(s: Seq<i32>, index: int)
    requires
        0 <= index < s.len(),
    ensures
        read_at_spec(s, index) is Ok,
        read_at_safe_spec(s, index) is Some,
        read_at_spec(s, index)->Ok_0 == read_at_safe_spec(s, index)->Some_0,
{
}

/// An index at or past the length always fails the checked read with
/// `IndexOutOfRange`, while the safe read returns the absent marker for the
/// same index.
pub proof fn lemma_read_out_of_range(s: Seq<i32>, index: int)
    requires
        index >= s.len(),
    ensures
        read_at_spec(s, index) == Err::<i32, VectorError>(VectorError::IndexOutOfRange),
        read_at_safe_spec(s, index) is None,
{
}

/// Scaling is invertible for exact-division factors: after scaling by a
/// non-zero `factor` (with no product overflowing), dividing every element
/// by the same factor restores the original values.
pub proof fn lemma_scale_all_invertible(s: Seq<i32>, factor: int)
    requires
        factor != 0,
        scale_in_range(s, factor),
    ensures
        unscaled(scaled(s, factor), factor) == s,
{
    assert forall|k: int| 0 <= k < s.len() implies unscaled(scaled(s, factor), factor)[k]
        == s[k] by {
        let x = s[k] as int;
        assert((x * factor) / factor == x) by (nonlinear_arith)
            requires
                factor != 0,
        ;
    }
    assert(unscaled(scaled(s, factor), factor) =~= s);
}

} // verus!
