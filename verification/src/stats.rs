use vstd::prelude::*;

verus! {

// Signal statistics over quantized samples. A sample is a signed 16-bit PCM
// value; full scale is 32767, so a sample s stands for the normalized
// amplitude s / 32767. All measures are exact integer arithmetic:
//   peak      = max |s|
//   sum of squares, from which RMS = sqrt(sum / (n * 32767^2))
// The fixed floors from the capture heuristics, expressed at full scale:
//   peak floor:  0.01  of full scale, i.e. |s| >= 328 counts as signal;
//   RMS floor:   0.005 of full scale, i.e. 40000 * sum >= n * 32767^2.
// A display level is the RMS scaled by a gain of 3 and clamped to [0, 1],
// reported in permille.

pub open spec fn abs_sample(s: i16) -> int {
    if s < 0 {
        -(s as int)
    } else {
        s as int
    }
}

pub open spec fn peak_abs_spec(s: Seq<i16>) -> int
    decreases s.len(),
{
    if s.len() == 0 {
        0
    } else {
        let rest = peak_abs_spec(s.drop_last());
        if abs_sample(s.last()) > rest {
            abs_sample(s.last())
        } else {
            rest
        }
    }
}

pub open spec fn sum_squares_spec(s: Seq<i16>) -> int
    decreases s.len(),
{
    if s.len() == 0 {
        0
    } else {
        sum_squares_spec(s.drop_last()) + s.last() * s.last()
    }
}

pub proof fn lemma_peak_abs_bounds(s: Seq<i16>)
    ensures
        0 <= peak_abs_spec(s) <= 32768,
    decreases s.len(),
{
    if s.len() > 0 {
        lemma_peak_abs_bounds(s.drop_last());
    }
}

pub proof fn lemma_sum_squares_bounds(s: Seq<i16>)
    ensures
        0 <= sum_squares_spec(s) <= s.len() * (32768 * 32768),
    decreases s.len(),
{
    if s.len() > 0 {
        lemma_sum_squares_bounds(s.drop_last());
        let v = s.last() as int;
        assert(0 <= v * v <= 32768 * 32768) by (nonlinear_arith)
            requires -32768 <= v <= 32767;
        assert(s.drop_last().len() * (32768 * 32768) + (32768 * 32768) == s.len() * (32768
            * 32768)) by (nonlinear_arith)
            requires s.len() >= 1 && s.drop_last().len() == s.len() - 1;
    }
}

/// Largest absolute sample value in a batch.
pub fn peak_abs(samples: &[i16]) -> (r: u16)
    ensures
        r as int == peak_abs_spec(samples@),
{
    let mut r: u16 = 0;
    let mut i: usize = 0;
    while i < samples.len()
        invariant
            i <= samples@.len(),
            r as int == peak_abs_spec(samples@.take(i as int)),
        decreases samples@.len() - i,
    {
        let s = samples[i];
        let a: u16 = if s == i16::MIN {
            32768
        } else if s < 0 {
            (-s) as u16
        } else {
            s as u16
        };
        if a > r {
            r = a;
        }
        proof {
            assert(samples@.take(i + 1).drop_last() =~= samples@.take(i as int));
            assert(samples@.take(i + 1).last() == samples@[i as int]);
        }
        i = i + 1;
    }
    proof {
        assert(samples@.take(samples@.len() as int) =~= samples@);
    }
    r
}

/// Sum of squared sample values of a batch.
pub fn sum_squares(samples: &[i16]) -> (r: u128)
    ensures
        r as int == sum_squares_spec(samples@),
{
    let n_len = samples.len();
    let mut r: u128 = 0;
    let mut i: usize = 0;
    while i < n_len
        invariant
            n_len == samples@.len(),
            i <= samples@.len(),
            r as int == sum_squares_spec(samples@.take(i as int)),
        decreases samples@.len() - i,
    {
        let s = samples[i];
        let w = s as i32;
        proof {
            assert(0 <= (w as int) * (w as int) <= 32768 * 32768) by (nonlinear_arith)
                requires -32768 <= (w as int) <= 32767;
        }
        let sq: u128 = ((w * w) as u64) as u128;
        proof {
            lemma_sum_squares_bounds(samples@.take(i as int));
            assert(samples@.take(i as int).len() * (32768 * 32768) <= samples@.len() * (32768
                * 32768)) by (nonlinear_arith)
                requires samples@.take(i as int).len() <= samples@.len();
            assert(samples@.len() * (32768 * 32768) < 0x10000000000000000000000000) by (
            nonlinear_arith)
                requires samples@.len() <= 0xFFFFFFFFFFFFFFFF;
            assert((w as int) * (w as int) == (s as int) * (s as int));
            assert(samples@.take(i + 1).drop_last() =~= samples@.take(i as int));
            assert(samples@.take(i + 1).last() == samples@[i as int]);
        }
        r = r + sq;
        i = i + 1;
    }
    proof {
        assert(samples@.take(samples@.len() as int) =~= samples@);
    }
    r
}

/// The floor of the square root of `n`: the unique `r` with
/// `r * r <= n < (r + 1) * (r + 1)`.
pub open spec fn floor_sqrt(n: int) -> int {
    choose|r: int| 0 <= r && (#[trigger] (r * r)) <= n < (r + 1) * (r + 1)
}

pub proof fn lemma_floor_sqrt_exists(n: nat)
    ensures
        exists|r: int| 0 <= r && (#[trigger] (r * r)) <= n < (r + 1) * (r + 1),
    decreases n,
{
    if n == 0 {
        let r: int = 0;
        assert(0 <= r && r * r <= n < (r + 1) * (r + 1)) by (nonlinear_arith)
            requires n == 0 && r == 0;
    } else {
        lemma_floor_sqrt_exists((n - 1) as nat);
        let r = choose|r: int| 0 <= r && (#[trigger] (r * r)) <= n - 1 < (r + 1) * (r + 1);
        if n < (r + 1) * (r + 1) {
            assert(0 <= r && r * r <= n < (r + 1) * (r + 1));
        } else {
            assert((r + 1) * (r + 1) == n);
            assert((r + 2) * (r + 2) > n) by (nonlinear_arith)
                requires r >= 0 && (r + 1) * (r + 1) == n;
            assert(0 <= r + 1 && (r + 1) * (r + 1) <= n < (r + 2) * (r + 2));
        }
    }
}

pub proof fn lemma_floor_sqrt_unique(n: int, r: int)
    requires
        n >= 0,
        0 <= r,
        r * r <= n,
        n < (r + 1) * (r + 1),
    ensures
        floor_sqrt(n) == r,
{
    lemma_floor_sqrt_exists(n as nat);
    let q = floor_sqrt(n);
    assert(0 <= q && q * q <= n < (q + 1) * (q + 1));
    assert(q == r) by (nonlinear_arith)
        requires
            0 <= r && r * r <= n < (r + 1) * (r + 1),
            0 <= q && q * q <= n < (q + 1) * (q + 1);
}

/// Floor of the square root, by bisection.
pub fn isqrt(n: u128) -> (r: u128)
    ensures
        r as int == floor_sqrt(n as int),
{
    let mut lo: u128 = 0;
    let mut hi: u128 = 0x10000000000000000;
    proof {
        assert((hi as int) * (hi as int) > n as int) by (nonlinear_arith)
            requires
                hi as int == 0x10000000000000000,
                n as int <= u128::MAX as int,
        ;
    }
    while lo + 1 < hi
        invariant
            0 <= lo < hi <= 0x10000000000000000,
            (lo as int) * (lo as int) <= n as int,
            (n as int) < (hi as int) * (hi as int),
        decreases hi - lo,
    {
        let mid = lo + (hi - lo) / 2;
        proof {
            assert(lo < mid < hi);
            assert((mid as int) * (mid as int) <= u128::MAX as int) by (nonlinear_arith)
                requires (mid as int) < 0x10000000000000000;
        }
        let sq = mid * mid;
        if sq <= n {
            lo = mid;
        } else {
            hi = mid;
        }
    }
    proof {
        lemma_floor_sqrt_unique(n as int, lo as int);
    }
    lo
}

// --- The fixed heuristic floors --------------------------------------------

/// A batch of `count` samples with the given statistics carries a signal:
/// its peak reaches 0.01 of full scale, or its RMS reaches 0.005.
pub open spec fn has_signal_spec(sum_squares: int, count: int, peak: int) -> bool {
    peak >= 328 || 40000 * sum_squares >= count * (32767 * 32767)
}

/// A captured buffer is near silence: both floors are missed. With the
/// display gain of 3, the RMS floor 0.005 is the gained floor 0.015.
pub open spec fn near_silent_spec(s: Seq<i16>) -> bool {
    !has_signal_spec(sum_squares_spec(s), s.len() as int, peak_abs_spec(s))
}

/// Decide near-silence of a sample buffer.
pub fn near_silent(samples: &[i16]) -> (r: bool)
    ensures
        r == near_silent_spec(samples@),
{
    let n_len = samples.len();
    let peak = peak_abs(samples);
    let sum = sum_squares(samples);
    proof {
        lemma_sum_squares_bounds(samples@);
        assert(samples@.len() * (32768 * 32768) < 0x10000000000000000000000000) by (
        nonlinear_arith)
            requires samples@.len() <= 0xFFFFFFFFFFFFFFFF;
        assert((samples@.len() as int) * (32767 * 32767) < 0x10000000000000000000000000) by (
        nonlinear_arith)
            requires samples@.len() <= 0xFFFFFFFFFFFFFFFF;
    }
    let gained = 40000u128 * sum;
    let floor_val = (n_len as u128) * (32767u128 * 32767u128);
    !(peak >= 328 || gained >= floor_val)
}

// --- Display level ----------------------------------------------------------

/// The display level of a batch in permille: RMS with a gain of 3, clamped
/// to [0, 1]. An empty batch has level 0.
pub open spec fn level_permille_spec(s: Seq<i16>) -> int {
    if s.len() == 0 {
        0
    } else {
        let scaled = floor_sqrt(9000000 * sum_squares_spec(s) / ((s.len() as int) * (32767 * 32767)));
        if scaled > 1000 {
            1000
        } else {
            scaled
        }
    }
}

/// Normalized display level of one callback batch, in permille.
pub fn batch_level_permille(samples: &[i16]) -> (r: u16)
    ensures
        r as int == level_permille_spec(samples@),
        r <= 1000,
{
    let n_len = samples.len();
    if n_len == 0 {
        return 0;
    }
    let sum = sum_squares(samples);
    proof {
        lemma_sum_squares_bounds(samples@);
        assert(9000000 * (samples@.len() * (32768 * 32768)) < 0x1000000000000000000000000000000)
            by (nonlinear_arith)
            requires samples@.len() <= 0xFFFFFFFFFFFFFFFF;
        assert(9000000 * sum_squares_spec(samples@) <= 9000000 * (samples@.len() * (32768
            * 32768))) by (nonlinear_arith)
            requires 0 <= sum_squares_spec(samples@) <= samples@.len() * (32768 * 32768);
        assert((samples@.len() as int) * (32767 * 32767) > 0) by (nonlinear_arith)
            requires samples@.len() >= 1;
        assert((samples@.len() as int) * (32767 * 32767) < 0x10000000000000000000000000) by (
        nonlinear_arith)
            requires samples@.len() <= 0xFFFFFFFFFFFFFFFF;
    }
    let num = 9000000u128 * sum;
    let den = (n_len as u128) * (32767u128 * 32767u128);
    let scaled = isqrt(num / den);
    if scaled > 1000 {
        1000
    } else {
        scaled as u16
    }
}

} // verus!
