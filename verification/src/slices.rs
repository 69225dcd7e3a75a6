//! Slicing demos: the first word of a string, and a window of an array.

use vstd::prelude::*;

verus! {

/// The index of the first space in `s`, or the length when there is none.
pub open spec fn first_space(s: Seq<char>) -> int
    decreases s.len(),
{
    if s.len() == 0 {
        0
    } else if s[0] == ' ' {
        0
    } else {
        1 + first_space(s.drop_first())
    }
}

/// `first_space` is in range, everything before it is not a space, and it
/// points at a space unless it is the length.
proof fn lemma_first_space(s: Seq<char>)
    ensures
        0 <= first_space(s) <= s.len(),
        forall|k: int| 0 <= k < first_space(s) ==> s[k] != ' ',
        first_space(s) < s.len() ==> s[first_space(s)] == ' ',
    decreases s.len(),
{
    if s.len() == 0 || s[0] == ' ' {
    } else {
        lemma_first_space(s.drop_first());
        assert forall|k: int| 0 <= k < first_space(s) implies s[k] != ' ' by {
            if k >= 1 {
                assert(s.drop_first()[k - 1] != ' ');
            }
        }
    }
}

/// Everything before the first space — the whole string when it holds no
/// space.
pub fn first_word(s: &str) -> (r: &str)
    ensures
        r@ == s@.take(first_space(s@)),
{
    let n = s.unicode_len();
    let mut i: usize = 0;
    while i < n && s.get_char(i) != ' '
        invariant
            n == s@.len(),
            i <= n,
            forall|k: int| 0 <= k < i ==> s@[k] != ' ',
        decreases n - i,
    {
        i += 1;
    }
    proof {
        lemma_first_space(s@);
        if first_space(s@) < i {
            assert(s@[first_space(s@)] == ' ');
            assert(false);
        }
        if first_space(s@) > i {
            assert(s@[i as int] != ' ');
            assert(false);
        }
    }
    s.substring_char(0, i)
}

/// A window of a literal array: elements one and two of
/// `[1, 2, 3, 4, 5, 6, 7, 8]`, that is `[2, 3]`.
pub fn other_slices() -> (r: Vec<i32>)
    ensures
        r@ == seq![2i32, 3i32],
{
    let a = [1i32, 2, 3, 4, 5, 6, 7, 8];
    let mut r: Vec<i32> = Vec::new();
    r.push(a[1]);
    r.push(a[2]);
    proof {
        assert(r@ =~= seq![2i32, 3i32]);
    }
    r
}

} // verus!
