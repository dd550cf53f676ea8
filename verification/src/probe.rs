use vstd::prelude::*;
use crate::stats::floor_sqrt;
use crate::stats::has_signal_spec;
use crate::stats::isqrt;
use crate::stats::lemma_peak_abs_bounds;
use crate::stats::lemma_sum_squares_bounds;
use crate::stats::peak_abs;
use crate::stats::peak_abs_spec;
use crate::stats::sum_squares;
use crate::stats::sum_squares_spec;

verus! {

// The signal probe: a short capture that keeps only running statistics, so
// its memory use is bounded no matter how long it listens.

/// Bounds a requested probe duration to the fixed window.
pub open spec fn clamp_duration_spec(ms: u64) -> u64 {
    if ms < 300 {
        300u64
    } else if ms > 5000 {
        5000u64
    } else {
        ms
    }
}

/// Clamp a requested probe duration in milliseconds to [300, 5000].
pub fn clamp_probe_duration(duration_ms: u64) -> (r: u64)
    ensures
        r == clamp_duration_spec(duration_ms),
        300 <= r <= 5000,
{
    if duration_ms < 300 {
        300
    } else if duration_ms > 5000 {
        5000
    } else {
        duration_ms
    }
}

/// Running statistics of one probe: sum of squared sample values, largest
/// absolute sample, and how many samples passed.
pub struct ProbeStats {
    pub sum_squares: u128,
    pub peak: u16,
    pub count: u64,
}

impl ProbeStats {
    /// The sum of squares never outgrows what `count` samples allow.
    pub open spec fn wf(&self) -> bool {
        self.sum_squares as int <= (self.count as int) * (32768 * 32768)
    }

    pub fn new() -> (r: ProbeStats)
        ensures
            r.sum_squares == 0,
            r.peak == 0,
            r.count == 0,
            r.wf(),
    {
        ProbeStats { sum_squares: 0, peak: 0, count: 0 }
    }

    /// Fold one callback batch into the running statistics.
    pub fn accumulate(&mut self, batch: &Vec<i16>)
        requires
            old(self).wf(),
            old(self).count + batch@.len() <= u64::MAX,
        ensures
            final(self).sum_squares as int == old(self).sum_squares + sum_squares_spec(batch@),
            final(self).peak as int == if peak_abs_spec(batch@) > old(self).peak {
                peak_abs_spec(batch@)
            } else {
                old(self).peak as int
            },
            final(self).count == old(self).count + batch@.len(),
            final(self).wf(),
    {
        let batch_peak = peak_abs(batch.as_slice());
        let batch_sum = sum_squares(batch.as_slice());
        proof {
            lemma_sum_squares_bounds(batch@);
            lemma_peak_abs_bounds(batch@);
            let old_sum = old(self).sum_squares as int;
            let old_count = old(self).count as int;
            let blen = batch@.len() as int;
            let bsum = batch_sum as int;
            assert(old_sum + bsum <= (old_count + blen) * (32768 * 32768)) by (nonlinear_arith)
                requires
                    old_sum <= old_count * (32768 * 32768),
                    bsum <= blen * (32768 * 32768),
                    0 <= blen,
            ;
            assert((old_count + blen) * (32768 * 32768) < 0x20000000000000000000000000) by (
            nonlinear_arith)
                requires 0 <= old_count + blen <= 0xFFFFFFFFFFFFFFFF;
        }
        self.sum_squares = self.sum_squares + batch_sum;
        if batch_peak > self.peak {
            self.peak = batch_peak;
        }
        self.count = self.count + (batch.len() as u64);
    }
}

/// The finished probe report, over the statistics alone. Amplitudes are in
/// permille of full scale: `rms_permille` is the raw RMS, `level_permille`
/// the display level (RMS with a gain of 3), both rounded down.
pub struct SignalProbeReport {
    pub device_name: String,
    pub duration_ms: u64,
    pub sample_count: u64,
    pub peak: u16,
    pub rms_permille: u16,
    pub level_permille: u16,
    pub has_signal: bool,
    pub message: String,
}

/// The raw RMS of the statistics, in permille, capped at the field's range.
pub open spec fn rms_permille_spec(sum_squares: int, count: int) -> int {
    let v = floor_sqrt(1000000 * sum_squares / (count * (32767 * 32767)));
    if v > 65535 {
        65535
    } else {
        v
    }
}

/// The display level of the statistics: RMS with a gain of 3, clamped to
/// [0, 1], in permille.
pub open spec fn probe_level_spec(sum_squares: int, count: int) -> int {
    let v = floor_sqrt(9000000 * sum_squares / (count * (32767 * 32767)));
    if v > 1000 {
        1000
    } else {
        v
    }
}

/// Assemble the report for a finished probe.
///
/// Zero samples is not an error: the report then carries zero levels, no
/// signal, and an explanatory message. Otherwise the signal decision is the
/// dual floor test, and the message depends on it and on whether the
/// environment looks virtualized.
pub fn build_probe_report(
    stats: &ProbeStats,
    device_name: String,
    duration_ms: u64,
    is_wsl: bool,
) -> (r: SignalProbeReport)
    requires
        stats.wf(),
    ensures
        r.device_name@ == device_name@,
        r.duration_ms == duration_ms,
        r.sample_count == stats.count,
        stats.count == 0 ==> {
            &&& r.peak == 0
            &&& r.rms_permille == 0
            &&& r.level_permille == 0
            &&& !r.has_signal
            &&& r.message@ == "No samples captured during probe. Source may be inactive or blocked."@
        },
        stats.count > 0 ==> {
            &&& r.peak == stats.peak
            &&& r.rms_permille as int == rms_permille_spec(
                stats.sum_squares as int,
                stats.count as int,
            )
            &&& r.level_permille as int == probe_level_spec(
                stats.sum_squares as int,
                stats.count as int,
            )
            &&& r.has_signal == has_signal_spec(
                stats.sum_squares as int,
                stats.count as int,
                stats.peak as int,
            )
        },
        stats.count > 0 && r.has_signal ==> r.message@
            == "Signal detected. This source should work for capture."@,
        stats.count > 0 && !r.has_signal && is_wsl ==> r.message@
            == "Source is near silence. On WSL2, pick a non-loopback source like 'pulse' or 'RDPSource', speak while probing, and verify Windows microphone privacy access for desktop apps."@,
        stats.count > 0 && !r.has_signal && !is_wsl ==> r.message@
            == "Source is near silence. Verify the source is active and not muted."@,
{
    if stats.count == 0 {
        return SignalProbeReport {
            device_name,
            duration_ms,
            sample_count: 0,
            peak: 0,
            rms_permille: 0,
            level_permille: 0,
            has_signal: false,
            message: String::from_str(
                "No samples captured during probe. Source may be inactive or blocked.",
            ),
        };
    }
    proof {
        assert(1000000 * (stats.sum_squares as int) < 0x1000000000000000000000000000000) by (
        nonlinear_arith)
            requires
                stats.sum_squares as int <= (stats.count as int) * (32768 * 32768),
                stats.count as int <= 0xFFFFFFFFFFFFFFFF,
        ;
        assert(9000000 * (stats.sum_squares as int) < 0x1000000000000000000000000000000) by (
        nonlinear_arith)
            requires
                stats.sum_squares as int <= (stats.count as int) * (32768 * 32768),
                stats.count as int <= 0xFFFFFFFFFFFFFFFF,
        ;
        assert(0 < (stats.count as int) * (32767 * 32767) < 0x10000000000000000000000000) by (
        nonlinear_arith)
            requires 1 <= stats.count as int <= 0xFFFFFFFFFFFFFFFF;
        assert(40000 * (stats.sum_squares as int) < 0x100000000000000000000000000000000) by (
        nonlinear_arith)
            requires
                stats.sum_squares as int <= (stats.count as int) * (32768 * 32768),
                stats.count as int <= 0xFFFFFFFFFFFFFFFF,
        ;
    }
    let den: u128 = (stats.count as u128) * (32767u128 * 32767u128);
    let rms_raw = isqrt(1000000u128 * stats.sum_squares / den);
    let rms_permille: u16 = if rms_raw > 65535 {
        65535
    } else {
        rms_raw as u16
    };
    let level_raw = isqrt(9000000u128 * stats.sum_squares / den);
    let level_permille: u16 = if level_raw > 1000 {
        1000
    } else {
        level_raw as u16
    };
    let has_signal = stats.peak >= 328 || 40000u128 * stats.sum_squares >= den;
    let message = if has_signal {
        String::from_str("Signal detected. This source should work for capture.")
    } else if is_wsl {
        String::from_str(
            "Source is near silence. On WSL2, pick a non-loopback source like 'pulse' or 'RDPSource', speak while probing, and verify Windows microphone privacy access for desktop apps.",
        )
    } else {
        String::from_str("Source is near silence. Verify the source is active and not muted.")
    };
    SignalProbeReport {
        device_name,
        duration_ms,
        sample_count: stats.count,
        peak: stats.peak,
        rms_permille,
        level_permille,
        has_signal,
        message,
    }
}

} // verus!
