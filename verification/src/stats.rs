//! Mean, median and mode of a non-empty integer sequence: the exact sum and
//! the count (the mean is their floating-point quotient, taken at the edge),
//! the truncating integer median of the sorted values, and the mode with a
//! deterministic tie-break (the smallest value among those tied for the
//! maximum occurrence count).

use vstd::prelude::*;
use vstd::relations::{sorted_by, total_ordering};
use vstd::seq_lib::lemma_sorted_unique;

verus! {

/// The one failure statistics can produce: a zero-length input, whose mean
/// would divide by zero.
#[derive(Debug, Clone, Copy, PartialEq, Eq, Structural)]
pub enum StatsError {
    EmptyInput,
}

/// Mean, median and mode, computed from a snapshot of an integer sequence;
/// immutable once produced. The mean is the exact `sum` divided by `count`
/// in floating point, a division this type leaves to the caller.
#[derive(Debug, Clone, Copy, PartialEq, Eq, Structural)]
pub struct StatisticsResult {
    pub sum: i128,
    pub count: usize,
    pub median: i32,
    pub mode: i32,
}

/// The order the median is taken in.
pub open spec fn value_order() -> spec_fn(i32, i32) -> bool {
    |a: i32, b: i32| a <= b
}

/// The input sequence sorted ascending.
pub open spec fn sorted_version(s: Seq<i32>) -> Seq<i32> {
    s.sort_by(value_order())
}

/// Exact sum of all elements.
pub open spec fn sum_of(s: Seq<i32>) -> int
    decreases s.len(),
{
    if s.len() == 0 {
        0
    } else {
        sum_of(s.drop_last()) + s.last()
    }
}

/// How often `v` occurs in `s`.
pub open spec fn count_in(s: Seq<i32>, v: i32) -> nat
    decreases s.len(),
{
    if s.len() == 0 {
        0
    } else {
        count_in(s.drop_last(), v) + (if s.last() == v {
            1nat
        } else {
            0nat
        })
    }
}

/// Integer average truncating toward zero.
pub open spec fn avg_trunc(a: int, b: int) -> int {
    let s = a + b;
    if s >= 0 {
        s / 2
    } else {
        -((-s) / 2)
    }
}

/// The median: the middle element of the sorted values for odd length, the
/// truncating integer average of the two middle elements for even length.
pub open spec fn median_of(s: Seq<i32>) -> int
    recommends
        s.len() > 0,
{
    let ss = sorted_version(s);
    let mid = s.len() as int / 2;
    if s.len() % 2 == 1 {
        ss[mid] as int
    } else {
        avg_trunc(ss[mid - 1] as int, ss[mid] as int)
    }
}

/// `mode` is a most frequent value of `s`, and the smallest among those
/// tied for the maximum occurrence count.
pub open spec fn is_mode_of(s: Seq<i32>, mode: i32) -> bool {
    &&& s.contains(mode)
    &&& forall|v: i32| s.contains(v) ==> count_in(s, v) <= count_in(s, mode)
    &&& forall|v: i32|
        s.contains(v) && count_in(s, v) == count_in(s, mode) ==> mode <= v
}

/// `s.take(i + 1)` drops to `s.take(i)` when the last element goes.
proof fn lemma_take_step(s: Seq<i32>, i: int)
    requires
        0 <= i < s.len(),
    ensures
        s.take(i + 1).drop_last() =~= s.take(i),
        s.take(i + 1).last() == s[i],
{
}

/// Inserting an element anywhere adds exactly it to the multiset.
proof fn lemma_insert_to_multiset(s: Seq<i32>, i: int, x: i32)
    requires
        0 <= i <= s.len(),
    ensures
        s.insert(i, x).to_multiset() =~= s.to_multiset().insert(x),
{
    broadcast use vstd::seq_lib::group_to_multiset_ensures;

    let t = s.insert(i, x);
    assert(t.remove(i) =~= s);
    assert(t[i] == x);
    assert(t.remove(i).to_multiset() =~= t.to_multiset().remove(t[i]));
    assert(t.contains(x));
    assert(t.to_multiset().count(x) > 0);
    assert(t.to_multiset() =~= t.to_multiset().remove(x).insert(x));
}

/// A copy of the input, sorted ascending.
fn sorted_copy(v: &Vec<i32>) -> (r: Vec<i32>)
    ensures
        r@ == sorted_version(v@),
        r@.len() == v@.len(),
{
    let n = v.len();
    let mut r: Vec<i32> = Vec::new();
    let mut i: usize = 0;
    proof {
        assert(v@.take(0) =~= r@);
    }
    while i < n
        invariant
            n == v@.len(),
            i <= n,
            sorted_by(r@, value_order()),
            r@.to_multiset() == v@.take(i as int).to_multiset(),
            r@.len() == i,
        decreases n - i,
    {
        broadcast use vstd::seq_lib::group_to_multiset_ensures;

        let x = v[i];
        let mut j: usize = 0;
        while j < r.len() && r[j] <= x
            invariant
                j <= r@.len(),
                sorted_by(r@, value_order()),
                forall|k: int| 0 <= k < j ==> r@[k] <= x,
            decreases r@.len() - j,
        {
            j += 1;
        }
        let ghost r_before = r@;
        r.insert(j, x);
        proof {
            let t = r@;
            let jj = j as int;
            assert(t == r_before.insert(jj, x));
            assert forall|m: int, k: int| 0 <= m < k < t.len() implies value_order()(
                t[m],
                t[k],
            ) by {
                assert(sorted_by(r_before, value_order()));
                if k < jj {
                    assert(t[m] == r_before[m] && t[k] == r_before[k]);
                    assert(value_order()(r_before[m], r_before[k]));
                } else if m < jj && k == jj {
                    assert(t[m] == r_before[m] && t[k] == x);
                    assert(r_before[m] <= x);
                } else if m < jj && k > jj {
                    assert(t[m] == r_before[m] && t[k] == r_before[k - 1]);
                    assert(value_order()(r_before[m], r_before[k - 1]));
                } else if m == jj {
                    assert(t[m] == x && t[k] == r_before[k - 1]);
                    assert(jj < r_before.len());
                    assert(x <= r_before[jj]);
                    if k - 1 > jj {
                        assert(value_order()(r_before[jj], r_before[k - 1]));
                    }
                } else {
                    assert(t[m] == r_before[m - 1] && t[k] == r_before[k - 1]);
                    assert(value_order()(r_before[m - 1], r_before[k - 1]));
                }
            }
            assert(sorted_by(r@, value_order()));
            lemma_insert_to_multiset(r_before, j as int, x);
            lemma_take_step(v@, i as int);
            assert(v@.take(i as int + 1) =~= v@.take(i as int).push(v@[i as int]));
            assert(v@.take(i as int + 1).to_multiset() =~= v@.take(
                i as int,
            ).to_multiset().insert(x));
        }
        i += 1;
    }
    proof {
        assert(v@.take(n as int) =~= v@);
        assert(total_ordering(value_order()));
        v@.lemma_sort_by_ensures(value_order());
        lemma_sorted_unique(r@, sorted_version(v@), value_order());
    }
    r
}

/// How often `x` occurs in `v`.
fn count_occurrences(v: &Vec<i32>, x: i32) -> (c: usize)
    ensures
        c == count_in(v@, x),
{
    let n = v.len();
    let mut c: usize = 0;
    let mut i: usize = 0;
    while i < n
        invariant
            n == v@.len(),
            i <= n,
            c <= i,
            c == count_in(v@.take(i as int), x),
        decreases n - i,
    {
        proof {
            lemma_take_step(v@, i as int);
        }
        if v[i] == x {
            c += 1;
        }
        i += 1;
    }
    proof {
        assert(v@.take(n as int) =~= v@);
    }
    c
}

/// Mean (as exact sum and count), median and mode of a non-empty sequence;
/// a zero-length input fails with `EmptyInput`.
pub fn mean_median_mode(numbers: &Vec<i32>) -> (r: Result<StatisticsResult, StatsError>)
    ensures
        numbers@.len() == 0 ==> r == Err::<StatisticsResult, StatsError>(StatsError::EmptyInput),
        numbers@.len() > 0 ==> r is Ok && (r matches Ok(stats) ==> {
            &&& stats.sum == sum_of(numbers@)
            &&& stats.count == numbers@.len()
            &&& stats.median as int == median_of(numbers@)
            &&& is_mode_of(numbers@, stats.mode)
        }),
{
    let n = numbers.len();
    if n == 0 {
        return Err(StatsError::EmptyInput);
    }
    // exact sum
    let mut sum: i128 = 0;
    let mut i: usize = 0;
    while i < n
        invariant
            n == numbers@.len(),
            i <= n,
            sum == sum_of(numbers@.take(i as int)),
            -(i as int) * 0x8000_0000 <= sum as int <= (i as int) * 0x8000_0000,
        decreases n - i,
    {
        proof {
            lemma_take_step(numbers@, i as int);
        }
        sum = sum + numbers[i] as i128;
        i += 1;
    }
    proof {
        assert(numbers@.take(n as int) =~= numbers@);
    }
    // mode with smallest-value tie-break
    let mut mode = numbers[0];
    let mut best = count_occurrences(numbers, mode);
    proof {
        assert(numbers@.contains(mode));
    }
    let mut i2: usize = 1;
    while i2 < n
        invariant
            n == numbers@.len(),
            1 <= i2 <= n,
            numbers@.contains(mode),
            best == count_in(numbers@, mode),
            forall|j: int|
                0 <= j < i2 ==> count_in(numbers@, #[trigger] numbers@[j]) <= best,
            forall|j: int|
                0 <= j < i2 && count_in(numbers@, #[trigger] numbers@[j]) == best ==> mode
                    <= numbers@[j],
        decreases n - i2,
    {
        let x = numbers[i2];
        let c = count_occurrences(numbers, x);
        if c > best || (c == best && x < mode) {
            mode = x;
            best = c;
            proof {
                assert(numbers@.contains(mode));
            }
        }
        i2 += 1;
    }
    proof {
        assert forall|v: i32| numbers@.contains(v) implies count_in(numbers@, v) <= count_in(
            numbers@,
            mode,
        ) by {
            let j = choose|j: int| 0 <= j < numbers@.len() && numbers@[j] == v;
        }
        assert forall|v: i32|
            numbers@.contains(v) && count_in(numbers@, v) == count_in(numbers@, mode) implies mode
            <= v by {
            let j = choose|j: int| 0 <= j < numbers@.len() && numbers@[j] == v;
        }
    }
    // median from a sorted copy
    let sorted = sorted_copy(numbers);
    let mid = n / 2;
    let median: i32 = if n % 2 == 1 {
        sorted[mid]
    } else {
        let a = sorted[mid - 1];
        let b = sorted[mid];
        let s64: i64 = a as i64 + b as i64;
        let m64: i64 = if s64 >= 0 {
            ((s64 as u64) / 2) as i64
        } else {
            -((((-s64) as u64) / 2) as i64)
        };
        m64 as i32
    };
    Ok(StatisticsResult { sum, count: n, median, mode })
}

} // verus!
