use vstd::prelude::*;
use std::collections::VecDeque;

verus! {

/// The sum of a window of measurements.
pub open spec fn window_sum(s: Seq<int>) -> int
    decreases s.len(),
{
    if s.len() == 0 {
        0
    } else {
        window_sum(s.drop_first()) + s.first()
    }
}

/// The sum of the squares of a window of measurements.
pub open spec fn window_sum_sq(s: Seq<int>) -> int
    decreases s.len(),
{
    if s.len() == 0 {
        0
    } else {
        window_sum_sq(s.drop_first()) + s.first() * s.first()
    }
}

/// The mean of a window, rounded down; zero for an empty window.
pub open spec fn window_mean(s: Seq<int>) -> int {
    if s.len() == 0 {
        0
    } else {
        window_sum(s) / s.len() as int
    }
}

/// The variance of a window in the mean-of-squares form, with both means
/// rounded down and a floor at zero; zero for an empty window.
pub open spec fn window_variance(s: Seq<int>) -> int {
    if s.len() == 0 {
        0
    } else {
        let m = window_mean(s);
        let q = window_sum_sq(s) / s.len() as int;
        if q >= m * m {
            q - m * m
        } else {
            0
        }
    }
}

/// Summing one more measurement adds it.
proof fn lemma_window_sum_snoc(s: Seq<int>, n: int)
    requires
        0 <= n < s.len(),
    ensures
        window_sum(s.take(n + 1)) == window_sum(s.take(n)) + s[n],
        window_sum_sq(s.take(n + 1)) == window_sum_sq(s.take(n)) + s[n] * s[n],
    decreases n,
{
    if n == 0 {
        assert(s.take(1).drop_first() =~= Seq::<int>::empty());
        assert(s.take(0) =~= Seq::<int>::empty());
    } else {
        lemma_window_sum_snoc(s.drop_first(), n - 1);
        assert(s.take(n + 1).drop_first() =~= s.drop_first().take(n));
        assert(s.take(n).drop_first() =~= s.drop_first().take(n - 1));
        assert(s.drop_first()[n - 1] == s[n]);
    }
}

/// A window of bounded measurements has a bounded sum and sum of squares.
pub proof fn lemma_window_sum_bounds(s: Seq<int>, b: int)
    requires
        0 <= b,
        forall|i: int| 0 <= i < s.len() ==> 0 <= #[trigger] s[i] < b,
    ensures
        0 <= window_sum(s) <= s.len() * b,
        0 <= window_sum_sq(s) <= s.len() * (b * b),
    decreases s.len(),
{
    if s.len() > 0 {
        lemma_window_sum_bounds(s.drop_first(), b);
        assert(s.first() == s[0]);
        assert(0 <= s[0] < b);
        assert(s[0] * s[0] <= b * b) by (nonlinear_arith)
            requires
                0 <= s[0] < b,
        ;
        assert((s.len() - 1) * b + b == s.len() * b) by (nonlinear_arith);
        assert((s.len() - 1) * (b * b) + b * b == s.len() * (b * b)) by (nonlinear_arith);
    }
}

/// The view of a window of 64-bit measurements.
pub open spec fn window_view(w: Seq<u64>) -> Seq<int> {
    w.map_values(|x: u64| x as int)
}

/// Sums a window of measurements and of their squares in one pass.
///
/// The bound on the measurements keeps both running sums well inside 128
/// bits: the window never exceeds 512 entries of values below 2^52.
pub fn window_sums(w: &VecDeque<u64>) -> (r: (u128, u128))
    requires
        w@.len() <= 512,
        forall|i: int| 0 <= i < w@.len() ==> #[trigger] w@[i] < 0x10_0000_0000_0000,
    ensures
        r.0 == window_sum(window_view(w@)),
        r.1 == window_sum_sq(window_view(w@)),
{
    let ghost s = window_view(w@);
    let len = w.len();
    let mut sum: u128 = 0;
    let mut sum_sq: u128 = 0;
    let mut i: usize = 0;
    assert(s.take(0) =~= Seq::<int>::empty());
    while i < len
        invariant
            i <= len,
            len == s.len(),
            len == w@.len(),
            len <= 512,
            forall|k: int| 0 <= k < w@.len() ==> #[trigger] w@[k] < 0x10_0000_0000_0000,
            forall|k: int| 0 <= k < s.len() ==> 0 <= #[trigger] s[k] < 0x10_0000_0000_0000,
            s == window_view(w@),
            sum == window_sum(s.take(i as int)),
            sum_sq == window_sum_sq(s.take(i as int)),
        decreases len - i,
    {
        let x = w[i];
        proof {
            lemma_window_sum_bounds(s.take(i as int), 0x10_0000_0000_0000);
            lemma_window_sum_snoc(s, i as int);
            assert(s[i as int] == w@[i as int] as int);
            assert(s.take(i as int).len() == i);
            assert((x as int) * (x as int) < 0x10_0000_0000_0000 * 0x10_0000_0000_0000)
                by (nonlinear_arith)
                requires
                    0 <= x < 0x10_0000_0000_0000,
            ;
        }
        sum = sum + (x as u128);
        sum_sq = sum_sq + (x as u128) * (x as u128);
        i = i + 1;
    }
    assert(s.take(len as int) =~= s);
    (sum, sum_sq)
}

/// The integer square root, rounded down: used to report a standard
/// deviation for the variance of the throughput window.
pub fn isqrt(x: u128) -> (r: u64)
    ensures
        (r as int) * (r as int) <= x,
        x < (r as int + 1) * (r as int + 1),
{
    let mut lo: u128 = 0;
    let mut hi: u128 = u64::MAX as u128;
    assert((hi + 1) * (hi + 1) > x) by (nonlinear_arith)
        requires
            hi == u64::MAX as u128,
            x <= u128::MAX,
    ;
    while lo < hi
        invariant
            0 <= lo <= hi <= u64::MAX,
            lo * lo <= x,
            x < (hi + 1) * (hi + 1),
        decreases hi - lo,
    {
        let mid: u128 = lo + (hi - lo + 1) / 2;
        assert(lo < mid <= hi);
        assert(mid * mid <= u128::MAX) by (nonlinear_arith)
            requires
                mid <= u64::MAX as u128,
        ;
        if mid * mid <= x {
            lo = mid;
        } else {
            hi = mid - 1;
        }
    }
    lo as u64
}

} // verus!
