//! Loudness metering: exact root-mean-square over a block of normalized
//! samples, and the display mapping to a bounded percentage.
//!
//! The RMS of a block with numerators `s` over denominator `den` is
//! `sqrt((sum s[i]^2) / (n * den^2)) == sqrt(n * sum s[i]^2) / (n * den)`.
//! The meter therefore returns the rational `num / (n * den)` where `num` is
//! the floor square root of `n * sum s[i]^2`; on perfect squares (silence,
//! constant blocks) this is the mathematically exact RMS.

use vstd::prelude::*;
use crate::sample::wave_wf;

verus! {

/// An RMS reading: the loudness is the rational `num / den`.
#[derive(Clone, Copy, PartialEq, Eq, Structural, Debug)]
pub struct Rms {
    pub num: u64,
    pub den: u64,
}

/// A display percentage: the value is the rational `num / den`, in `[0, 100]`.
#[derive(Clone, Copy, PartialEq, Eq, Structural, Debug)]
pub struct VolumePercent {
    pub num: u128,
    pub den: u128,
}

pub open spec fn rms_wf(r: Rms) -> bool {
    1 <= r.den
}

/// `v` is the floor integer square root of `x`.
pub open spec fn is_isqrt(v: int, x: int) -> bool {
    &&& 0 <= v
    &&& v * v <= x
    &&& x < (v + 1) * (v + 1)
}

pub open spec fn sum_sq(s: Seq<i64>) -> int
    decreases s.len(),
{
    if s.len() == 0 {
        0
    } else {
        sum_sq(s.drop_last()) + s.last() * s.last()
    }
}

pub open spec fn abs_val(x: int) -> int {
    if x < 0 {
        -x
    } else {
        x
    }
}

/// Floor integer square root by bisection.
fn isqrt_u128(x: u128) -> (r: u64)
    requires
        x < 0x4000_0000_0000_0000_0000_0000_0000_0000u128,
    ensures
        is_isqrt(r as int, x as int),
{
    let mut lo: u64 = 0;
    let mut hi: u64 = 0x8000_0000_0000_0000;
    assert((hi as int) * (hi as int) == 0x4000_0000_0000_0000_0000_0000_0000_0000);
    while lo + 1 < hi
        invariant
            lo < hi <= 0x8000_0000_0000_0000,
            (lo as int) * (lo as int) <= x as int,
            (x as int) < (hi as int) * (hi as int),
        decreases hi - lo,
    {
        let mid: u64 = lo + (hi - lo) / 2;
        proof {
            assert((mid as int) * (mid as int) <= 0x4000_0000_0000_0000_0000_0000_0000_0000)
                by (nonlinear_arith)
                requires
                    0 <= mid as int <= 0x8000_0000_0000_0000,
            ;
        }
        if (mid as u128) * (mid as u128) <= x {
            lo = mid;
        } else {
            hi = mid;
        }
    }
    lo
}

proof fn lemma_sum_sq_const(s: Seq<i64>, a: i64)
    requires
        forall|i: int| 0 <= i < s.len() ==> s[i] == a,
    ensures
        sum_sq(s) == s.len() * (a as int * a as int),
    decreases s.len(),
{
    if s.len() == 0 {
    } else {
        lemma_sum_sq_const(s.drop_last(), a);
        assert(s.last() == a);
        assert((s.len() - 1) * (a as int * a as int) + (a as int * a as int) == s.len() * (
        a as int * a as int)) by (nonlinear_arith);
    }
}

/// RMS of a block of normalized numerators over denominator `den`; an empty
/// block reads zero (a valid silent state, not an error). For a non-empty
/// block of length `n` the result is `num / (n * den)` with `num` the floor
/// square root of `n * sum_sq`; a block of zeros reads exactly zero. The
/// length bound keeps every intermediate square sum within machine words.
pub fn calculate_rms(samples: &Vec<i64>, den: u64) -> (r: Rms)
    requires
        wave_wf(samples@, den as int),
        samples@.len() * (den as int + 2) <= 0x4000_0000_0000_0000,
    ensures
        rms_wf(r),
        samples@.len() == 0 ==> r.num == 0 && r.den == 1,
        samples@.len() > 0 ==> r.den as int == samples@.len() * den,
        samples@.len() > 0 ==> is_isqrt(r.num as int, samples@.len() * sum_sq(samples@)),
        (forall|i: int| 0 <= i < samples@.len() ==> samples@[i] == 0) ==> r.num == 0,
{
    let n = samples.len();
    if n == 0 {
        return Rms { num: 0, den: 1 };
    }
    let ghost b: int = den as int + 2;
    let mut sum: u128 = 0;
    let mut k: usize = 0;
    while k < n
        invariant
            k <= n,
            n == samples@.len(),
            wave_wf(samples@, den as int),
            n * b <= 0x4000_0000_0000_0000,
            b == den as int + 2,
            sum as int == sum_sq(samples@.take(k as int)),
            sum as int <= k * (b * b),
        decreases n - k,
    {
        let v = samples[k];
        proof {
            assert(samples@.take(k as int + 1).drop_last() =~= samples@.take(k as int));
            assert(samples@.take(k as int + 1).last() == samples@[k as int]);
            assert(-b <= v as int <= b);
            assert(v as int * v as int <= b * b) by (nonlinear_arith)
                requires
                    -b <= v as int <= b,
            ;
            assert(0 <= v as int * v as int) by (nonlinear_arith);
            assert(k * (b * b) + b * b == (k + 1) * (b * b)) by (nonlinear_arith);
            assert((k + 1) * (b * b) <= (n * b) * b) by (nonlinear_arith)
                requires
                    k + 1 <= n,
                    0 <= b,
            ;
            assert((n * b) * b <= 0x4000_0000_0000_0000 * b) by (nonlinear_arith)
                requires
                    n * b <= 0x4000_0000_0000_0000,
                    0 <= b,
            ;
            assert(0x4000_0000_0000_0000 * b < 0x4000_0000_0000_0000_0000_0000_0000_0000)
                by (nonlinear_arith)
                requires
                    b <= 0x1_0000_0000_0000,
            ;
        }
        sum = sum + (v as i128 * v as i128) as u128;
        k = k + 1;
    }
    proof {
        assert(samples@.take(n as int) =~= samples@);
        assert(sum as int <= n * (b * b));
        assert(n * (n * (b * b)) == (n * b) * (n * b)) by (nonlinear_arith);
        assert((n * b) * (n * b) <= 0x4000_0000_0000_0000 * 0x4000_0000_0000_0000)
            by (nonlinear_arith)
            requires
                0 <= n * b <= 0x4000_0000_0000_0000,
        ;
        assert(n * (sum as int) <= n * (n * (b * b))) by (nonlinear_arith)
            requires
                sum as int <= n * (b * b),
                0 <= n,
        ;
        assert(0 <= n * (sum as int)) by (nonlinear_arith)
            requires
                0 <= n,
                0 <= sum as int,
        ;
        assert(n * den <= n * b) by (nonlinear_arith)
            requires
                0 <= n,
                den as int <= b,
        ;
        assert(1 <= n * den) by (nonlinear_arith)
            requires
                1 <= n,
                1 <= den,
        ;
        if forall|i: int| 0 <= i < samples@.len() ==> samples@[i] == 0 {
            lemma_sum_sq_const(samples@, 0);
            assert(samples@.len() * (0 as int * 0 as int) == 0) by (nonlinear_arith);
        }
    }
    let total: u128 = (n as u128) * sum;
    let num = isqrt_u128(total);
    let r = Rms { num, den: (n as u64) * den };
    proof {
        if forall|i: int| 0 <= i < samples@.len() ==> samples@[i] == 0 {
            assert(total == 0);
            assert(is_isqrt(r.num as int, 0));
            assert(r.num as int * r.num as int <= 0);
            assert(r.num == 0) by (nonlinear_arith)
                requires
                    r.num as int * r.num as int <= 0,
            ;
        }
    }
    r
}

/// Display mapping `min(rms * 100, 100)`, exactly: a loudness at or above
/// full scale reads exactly 100; below it, the percentage is the exact
/// rational `100 * num / den`. The reading always lies in `[0, 100]`.
pub fn volume_percent(r: &Rms) -> (p: VolumePercent)
    requires
        rms_wf(*r),
    ensures
        1 <= p.den,
        p.num <= 100 * p.den,
        r.num >= r.den ==> p.num == 100 && p.den == 1,
        r.num < r.den ==> p.num == 100 * r.num && p.den == r.den,
{
    if r.num >= r.den {
        VolumePercent { num: 100, den: 1 }
    } else {
        let p = VolumePercent { num: 100u128 * (r.num as u128), den: r.den as u128 };
        proof {
            assert(100 * (r.num as int) <= 100 * (r.den as int)) by (nonlinear_arith)
                requires
                    r.num as int <= r.den as int,
            ;
        }
        p
    }
}

proof fn lemma_isqrt_of_square(v: int, k: int)
    requires
        0 <= v,
        0 <= k,
        is_isqrt(v, k * k),
    ensures
        v == k,
{
    if v < k {
        assert((v + 1) * (v + 1) <= k * k) by (nonlinear_arith)
            requires
                0 <= v,
                v + 1 <= k,
        ;
        assert(false);
    }
    if v > k {
        assert(k * k < v * v) by (nonlinear_arith)
            requires
                0 <= k,
                k + 1 <= v,
        ;
        assert(false);
    }
}

/// Law: the meter is exact on a constant block. If every entry of a
/// non-empty block equals `a`, the numerator computed by `calculate_rms` is
/// `len * |a|`, so the RMS rational `num / (len * den)` is exactly
/// `|a| / den` -- the magnitude of the block's constant amplitude. With
/// `a == 0` this gives an all-zero block of any length an RMS of exactly
/// zero.
pub proof fn lemma_rms_constant_block(s: Seq<i64>, a: i64, num: int)
    requires
        s.len() > 0,
        forall|i: int| 0 <= i < s.len() ==> s[i] == a,
        is_isqrt(num, s.len() * sum_sq(s)),
    ensures
        num == s.len() * abs_val(a as int),
{
    lemma_sum_sq_const(s, a);
    let n = s.len() as int;
    let m = abs_val(a as int);
    assert(n * (n * (a as int * a as int)) == (n * m) * (n * m)) by (nonlinear_arith)
        requires
            m == abs_val(a as int),
            0 <= n,
    ;
    assert(0 <= n * m) by (nonlinear_arith)
        requires
            0 <= n,
            0 <= m,
    ;
    lemma_isqrt_of_square(num, n * m);
}

} // verus!
