//! Reduction of a sequence of raw samples to one integer mean.

use vstd::prelude::*;
use crate::error::AcquisitionError;

verus! {

/// The sum of the samples.
pub open spec fn sum_of(s: Seq<i32>) -> int
    decreases s.len(),
{
    if s.len() == 0 {
        0
    } else {
        sum_of(s.drop_last()) + s.last()
    }
}

/// The quotient of `total` by a positive `n`, rounded toward zero.
pub open spec fn toward_zero(total: int, n: int) -> int {
    if total >= 0 {
        total / n
    } else {
        -((-total) / n)
    }
}

/// The arithmetic mean of the samples, rounded toward zero.
pub open spec fn mean_of(s: Seq<i32>) -> int {
    toward_zero(sum_of(s), s.len() as int)
}

/// The smallest of the samples.
pub open spec fn min_of(s: Seq<i32>) -> int
    decreases s.len(),
{
    if s.len() <= 1 {
        if s.len() == 1 { s[0] as int } else { 0 }
    } else if s.last() < min_of(s.drop_last()) {
        s.last() as int
    } else {
        min_of(s.drop_last())
    }
}

/// The largest of the samples.
pub open spec fn max_of(s: Seq<i32>) -> int
    decreases s.len(),
{
    if s.len() <= 1 {
        if s.len() == 1 { s[0] as int } else { 0 }
    } else if s.last() > max_of(s.drop_last()) {
        s.last() as int
    } else {
        max_of(s.drop_last())
    }
}

/// Every sample lies between the smallest and the largest.
pub proof fn lemma_extremes_bound(s: Seq<i32>)
    ensures
        forall|i: int| 0 <= i < s.len() ==> min_of(s) <= #[trigger] s[i] <= max_of(s),
    decreases s.len(),
{
    if s.len() > 1 {
        lemma_extremes_bound(s.drop_last());
        assert forall|i: int| 0 <= i < s.len() implies min_of(s) <= #[trigger] s[i] <= max_of(
            s,
        ) by {
            if i < s.len() - 1 {
                assert(s.drop_last()[i] == s[i]);
            }
        }
    }
}

/// A sum of samples that all lie in `[lo, hi]` lies in `[n * lo, n * hi]`.
pub proof fn lemma_sum_bounds(s: Seq<i32>, lo: int, hi: int)
    requires
        forall|i: int| 0 <= i < s.len() ==> lo <= #[trigger] s[i] <= hi,
    ensures
        s.len() * lo <= sum_of(s) <= s.len() * hi,
    decreases s.len(),
{
    if s.len() > 0 {
        let front = s.drop_last();
        assert forall|i: int| 0 <= i < front.len() implies lo <= #[trigger] front[i] <= hi by {
            assert(front[i] == s[i]);
        }
        lemma_sum_bounds(front, lo, hi);
        assert(s.len() * lo == front.len() * lo + lo) by (nonlinear_arith)
            requires
                s.len() == front.len() + 1,
        ;
        assert(s.len() * hi == front.len() * hi + hi) by (nonlinear_arith)
            requires
                s.len() == front.len() + 1,
        ;
    }
}

/// A quotient rounded toward zero stays within integer bounds of the exact one.
pub proof fn lemma_toward_zero_bounds(total: int, n: int, lo: int, hi: int)
    requires
        n > 0,
        n * lo <= total <= n * hi,
    ensures
        lo <= toward_zero(total, n) <= hi,
{
    if total >= 0 {
        lemma_floor_bounds(total, n, lo, hi);
    } else {
        assert(n * (-hi) <= -total <= n * (-lo)) by (nonlinear_arith)
            requires
                n * lo <= total <= n * hi,
        ;
        lemma_floor_bounds(-total, n, -hi, -lo);
    }
}

proof fn lemma_floor_bounds(x: int, n: int, lo: int, hi: int)
    requires
        n > 0,
        n * lo <= x <= n * hi,
    ensures
        lo <= x / n <= hi,
{
    vstd::arithmetic::div_mod::lemma_fundamental_div_mod(x, n);
    vstd::arithmetic::div_mod::lemma_mod_bound(x, n);
    let q = x / n;
    let r = x % n;
    assert(lo <= q <= hi) by (nonlinear_arith)
        requires
            n > 0,
            x == n * q + r,
            0 <= r < n,
            n * lo <= x <= n * hi,
    ;
}

/// The mean of a sequence that is not empty lies between its smallest and
/// its largest sample.
pub proof fn lemma_mean_within_extremes(s: Seq<i32>)
    requires
        s.len() > 0,
    ensures
        min_of(s) <= mean_of(s) <= max_of(s),
{
    lemma_extremes_bound(s);
    lemma_sum_bounds(s, min_of(s), max_of(s));
    lemma_toward_zero_bounds(sum_of(s), s.len() as int, min_of(s), max_of(s));
}

/// The mean of samples that are not empty is itself a 32-bit number.
pub proof fn lemma_mean_in_range(s: Seq<i32>)
    requires
        s.len() > 0,
    ensures
        i32::MIN <= mean_of(s) <= i32::MAX,
{
    lemma_sum_bounds(s, i32::MIN as int, i32::MAX as int);
    lemma_toward_zero_bounds(sum_of(s), s.len() as int, i32::MIN as int, i32::MAX as int);
}

/// The mean of a single sample is that sample.
pub proof fn lemma_mean_of_one(x: i32)
    ensures
        mean_of(seq![x]) == x,
{
    let s = seq![x];
    assert(s.drop_last().len() == 0);
    assert(sum_of(s.drop_last()) == 0);
    assert(sum_of(s) == x);
}

/// Shifting every sample by `k` shifts the sum by `k` for each sample.
pub proof fn lemma_sum_shift(s: Seq<i32>, t: Seq<i32>, k: int)
    requires
        s.len() == t.len(),
        forall|i: int| 0 <= i < s.len() ==> #[trigger] t[i] == s[i] + k,
    ensures
        sum_of(t) == sum_of(s) + s.len() * k,
    decreases s.len(),
{
    if s.len() > 0 {
        let sf = s.drop_last();
        let tf = t.drop_last();
        assert forall|i: int| 0 <= i < sf.len() implies #[trigger] tf[i] == sf[i] + k by {
            assert(tf[i] == t[i]);
            assert(sf[i] == s[i]);
        }
        lemma_sum_shift(sf, tf, k);
        assert(s.len() * k == sf.len() * k + k) by (nonlinear_arith)
            requires
                s.len() == sf.len() + 1,
        ;
    } else {
        assert(s.len() * k == 0) by (nonlinear_arith)
            requires
                s.len() == 0,
        ;
    }
}

/// Shifting every sample by `k` shifts the mean by `k`, up to one unit of
/// rounding; exactly by `k` where both sums have the same sign.
pub proof fn lemma_mean_shift(s: Seq<i32>, t: Seq<i32>, k: int)
    requires
        s.len() == t.len(),
        s.len() > 0,
        forall|i: int| 0 <= i < s.len() ==> #[trigger] t[i] == s[i] + k,
    ensures
        k - 1 <= mean_of(t) - mean_of(s) <= k + 1,
        (sum_of(s) >= 0 && sum_of(t) >= 0) ==> mean_of(t) - mean_of(s) == k,
        (sum_of(s) <= 0 && sum_of(t) <= 0) ==> mean_of(t) - mean_of(s) == k,
        sum_of(s) % (s.len() as int) == 0 ==> mean_of(t) - mean_of(s) == k,
{
    lemma_sum_shift(s, t, k);
    let n = s.len() as int;
    let a = sum_of(s);
    let b = sum_of(t);
    lemma_floor_shift(a, n, k);
    lemma_floor_shift(-a, n, -k);
    assert(-b == -a + n * (-k)) by (nonlinear_arith)
        requires
            b == a + n * k,
    ;
    lemma_floor_negate(a, n);
    lemma_floor_negate(b, n);
}

proof fn lemma_floor_shift(x: int, n: int, k: int)
    requires
        n > 0,
    ensures
        (x + n * k) / n == x / n + k,
        (x + n * k) % n == x % n,
{
    vstd::arithmetic::div_mod::lemma_fundamental_div_mod(x, n);
    vstd::arithmetic::div_mod::lemma_mod_bound(x, n);
    let q = x / n;
    let r = x % n;
    assert(x + n * k == n * (q + k) + r) by (nonlinear_arith)
        requires
            x == n * q + r,
    ;
    vstd::arithmetic::div_mod::lemma_fundamental_div_mod_converse(x + n * k, n, q + k, r);
}

proof fn lemma_floor_negate(x: int, n: int)
    requires
        n > 0,
    ensures
        x % n == 0 ==> (-x) / n == -(x / n),
        x % n != 0 ==> (-x) / n == -(x / n) - 1,
{
    vstd::arithmetic::div_mod::lemma_fundamental_div_mod(x, n);
    vstd::arithmetic::div_mod::lemma_mod_bound(x, n);
    let q = x / n;
    let r = x % n;
    if r == 0 {
        assert(-x == n * (-q) + 0) by (nonlinear_arith)
            requires
                x == n * q + r,
                r == 0,
        ;
        vstd::arithmetic::div_mod::lemma_fundamental_div_mod_converse(-x, n, -q, 0);
    } else {
        assert(-x == n * (-q - 1) + (n - r)) by (nonlinear_arith)
            requires
                x == n * q + r,
        ;
        vstd::arithmetic::div_mod::lemma_fundamental_div_mod_converse(-x, n, -q - 1, n - r);
    }
}

/// The arithmetic mean of the samples, rounded toward zero. An empty
/// sequence has no mean and gives `InsufficientSamples`.
pub fn average(samples: &Vec<i32>) -> (mean: Result<i32, AcquisitionError>)
    ensures
        samples@.len() == 0 ==> mean == Err::<i32, AcquisitionError>(
            AcquisitionError::InsufficientSamples,
        ),
        samples@.len() > 0 ==> mean == Ok::<i32, AcquisitionError>(mean_of(samples@) as i32),
        samples@.len() > 0 ==> min_of(samples@) <= mean_of(samples@) <= max_of(samples@),
        samples@.len() > 0 ==> i32::MIN <= mean_of(samples@) <= i32::MAX,
{
    let n: usize = samples.len();
    if n == 0 {
        return Err(AcquisitionError::InsufficientSamples);
    }
    let mut total: i128 = 0;
    let mut i: usize = 0;
    while i < n
        invariant
            n == samples@.len(),
            i <= n,
            total == sum_of(samples@.take(i as int)),
            i * (-0x8000_0000) <= total <= i * 0x7fff_ffff,
        decreases n - i,
    {
        proof {
            let front = samples@.take(i as int + 1);
            assert(front.drop_last() =~= samples@.take(i as int));
            assert(front.last() == samples@[i as int]);
            assert((i + 1) * (-0x8000_0000) == i * (-0x8000_0000) - 0x8000_0000)
                by (nonlinear_arith);
            assert((i + 1) * 0x7fff_ffff == i * 0x7fff_ffff + 0x7fff_ffff) by (nonlinear_arith);
            assert(i * 0x7fff_ffff <= 0xffff_ffff_ffff_ffff * 0x7fff_ffff) by (nonlinear_arith)
                requires
                    i <= 0xffff_ffff_ffff_ffff,
            ;
            assert(i * (-0x8000_0000) >= 0xffff_ffff_ffff_ffff * (-0x8000_0000))
                by (nonlinear_arith)
                requires
                    i <= 0xffff_ffff_ffff_ffff,
            ;
        }
        total = total + samples[i] as i128;
        i = i + 1;
    }
    proof {
        assert(samples@.take(n as int) =~= samples@);
        lemma_mean_within_extremes(samples@);
        lemma_mean_in_range(samples@);
    }
    let count: u128 = n as u128;
    if total >= 0 {
        let q: u128 = (total as u128) / count;
        Ok(q as i32)
    } else {
        let q: u128 = ((-total) as u128) / count;
        let signed: i128 = -(q as i128);
        Ok(signed as i32)
    }
}

} // verus!
