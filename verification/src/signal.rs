//! Per-channel classification: an online single-frequency magnitude
//! estimate (a DC-corrected non-uniform discrete Fourier component
//! over a rolling window), a self-calibrating noise floor derived
//! from recent chunk maxima, and the hysteretic Active/Inactive state
//! machine that turns composite activity into gesture edges.

use vstd::prelude::*;
use std::collections::VecDeque;
use crate::config::Variables;
use crate::calibration::{
    increment_from, increment_spec, top_nonadjacent_maxima, top_nonadjacent_spec,
    lemma_top_nonadjacent_bounds, ActivityThresholdStats,
};
use crate::numeric::{
    cos_fp, cos_fp_spec, div_trunc, div_trunc_spec, isqrt, isqrt_spec, lemma_div_trunc_bound,
    lemma_isqrt_spec_bounds, lemma_mul_abs_le, mul_scaled, phase_of, phase_of_spec, sin_fp,
    sin_fp_spec, SCALE,
};
use crate::window::{seq_sum, window_after_push, Window};

verus! {

/// Length of the rolling window the frequency component is estimated
/// over, in samples; also the number of frequency bins plus one.
pub const FFT_WINDOW: usize = 50;

/// Samples per chunk over which a running maximum magnitude is taken.
pub const MAXIMUM_CHUNK_SIZE: usize = 100;

/// How far into a chunk the candidate noise floor is committed, so
/// that a gesture beginning right at a chunk boundary cannot corrupt
/// the floor it is judged against.
pub const ACTIVITY_ONSET_LEEWAY: usize = 50;

/// How many chunk maxima are retained for calibration.
pub const MAXIMA_CHUNKS: usize = 30;

/// How many recent magnitude estimates are retained.
pub const FFT_HISTORY_SIZE: usize = 3000;

/// The channel state machine is advanced once per this many samples.
pub const FRAMES_PER_FFT: usize = 10;

/// Magnitude bound on scaled raw samples and on the products pushed
/// into the summand windows.
pub const RAW_VALUE_BOUND: i64 = 50_000_000;

/// Magnitude bound on the corrected component magnitudes.
pub const NORM_BOUND: i64 = 150_000_000;

/// The truncated mean of a non-empty sequence of held values.
pub open spec fn mean_of(s: Seq<i64>) -> int {
    div_trunc_spec(seq_sum(s), s.len() as int)
}

/// Real part of the unit phasor at the given frequency and time.
pub open spec fn direction_re_spec(frequency_millihertz: int, time_micros: int) -> int {
    cos_fp_spec(phase_of_spec(frequency_millihertz, time_micros))
}

/// Imaginary part of the unit phasor at the given frequency and time.
pub open spec fn direction_im_spec(frequency_millihertz: int, time_micros: int) -> int {
    sin_fp_spec(phase_of_spec(frequency_millihertz, time_micros))
}

/// One tracked frequency for one channel: rolling windows over the
/// raw samples, the unit phasor (as real and imaginary parts), and
/// their products; the history of corrected component magnitudes; the
/// bounded history of chunk maxima; and the live and candidate noise
/// floors.
pub struct SingleFrequencyState {
    frequency_millihertz: u64,
    raw_signal_values: Window,
    direction_re: Window,
    direction_im: Window,
    nudft_summand_re: Window,
    nudft_summand_im: Window,
    corrected_nudft_norms: Window,
    chunk_maxima: Window,
    running_max_of_current_chunk: i64,
    activity_threshold_stats: ActivityThresholdStats,
    activity_threshold_stats_candidate: ActivityThresholdStats,
}

impl SingleFrequencyState {
    /// The tracked frequency, in milli-hertz.
    pub closed spec fn frequency(&self) -> u64 {
        self.frequency_millihertz
    }

    /// How many raw samples have been observed.
    pub closed spec fn count(&self) -> nat {
        self.raw_signal_values.pushed().len()
    }

    pub closed spec fn raw_values(&self) -> Seq<i64> {
        self.raw_signal_values.values_seq()
    }

    pub closed spec fn dir_re_values(&self) -> Seq<i64> {
        self.direction_re.values_seq()
    }

    pub closed spec fn dir_im_values(&self) -> Seq<i64> {
        self.direction_im.values_seq()
    }

    pub closed spec fn sum_re_values(&self) -> Seq<i64> {
        self.nudft_summand_re.values_seq()
    }

    pub closed spec fn sum_im_values(&self) -> Seq<i64> {
        self.nudft_summand_im.values_seq()
    }

    /// The whole stream of corrected component magnitudes.
    pub closed spec fn norms_pushed(&self) -> Seq<i64> {
        self.corrected_nudft_norms.pushed()
    }

    /// The currently retained magnitudes.
    pub closed spec fn norms_values(&self) -> Seq<i64> {
        self.corrected_nudft_norms.values_seq()
    }

    /// The whole stream of chunk maxima.
    pub closed spec fn maxima_pushed(&self) -> Seq<i64> {
        self.chunk_maxima.pushed()
    }

    /// The currently retained chunk maxima.
    pub closed spec fn maxima_values(&self) -> Seq<i64> {
        self.chunk_maxima.values_seq()
    }

    pub closed spec fn running_max(&self) -> i64 {
        self.running_max_of_current_chunk
    }

    /// The committed noise floor.
    pub closed spec fn stats(&self) -> ActivityThresholdStats {
        self.activity_threshold_stats
    }

    /// The noise floor candidate awaiting an idle channel.
    pub closed spec fn candidate(&self) -> ActivityThresholdStats {
        self.activity_threshold_stats_candidate
    }

    pub closed spec fn wf(&self) -> bool {
        &&& self.raw_signal_values.wf()
        &&& self.raw_signal_values.cap() == FFT_WINDOW
        &&& self.raw_signal_values.bound_spec() == RAW_VALUE_BOUND
        &&& self.direction_re.wf()
        &&& self.direction_re.cap() == FFT_WINDOW
        &&& self.direction_re.bound_spec() == SCALE
        &&& self.direction_im.wf()
        &&& self.direction_im.cap() == FFT_WINDOW
        &&& self.direction_im.bound_spec() == SCALE
        &&& self.nudft_summand_re.wf()
        &&& self.nudft_summand_re.cap() == FFT_WINDOW
        &&& self.nudft_summand_re.bound_spec() == RAW_VALUE_BOUND
        &&& self.nudft_summand_im.wf()
        &&& self.nudft_summand_im.cap() == FFT_WINDOW
        &&& self.nudft_summand_im.bound_spec() == RAW_VALUE_BOUND
        &&& self.corrected_nudft_norms.wf()
        &&& self.corrected_nudft_norms.cap() == FFT_HISTORY_SIZE
        &&& self.corrected_nudft_norms.bound_spec() == NORM_BOUND
        &&& self.chunk_maxima.wf()
        &&& self.chunk_maxima.cap() == MAXIMA_CHUNKS
        &&& self.chunk_maxima.bound_spec() == NORM_BOUND
        &&& self.direction_re.pushed().len() == self.count()
        &&& self.direction_im.pushed().len() == self.count()
        &&& self.nudft_summand_re.pushed().len() == self.count()
        &&& self.nudft_summand_im.pushed().len() == self.count()
        &&& self.corrected_nudft_norms.pushed().len() == self.count()
        &&& self.chunk_maxima.pushed().len() <= self.count()
        &&& forall|i: int|
            0 <= i < self.norms_pushed().len() ==> 0 <= #[trigger] self.norms_pushed()[i]
                <= NORM_BOUND
        &&& forall|i: int|
            0 <= i < self.maxima_pushed().len() ==> 0 <= #[trigger] self.maxima_pushed()[i]
                <= NORM_BOUND
        &&& 0 <= self.running_max_of_current_chunk <= NORM_BOUND
        &&& self.activity_threshold_stats.wf()
        &&& self.activity_threshold_stats_candidate.wf()
    }

    /// A fresh tracker for one frequency, with everything empty and
    /// the noise floor unreachably high.
    pub fn new(frequency_millihertz: u64) -> (r: SingleFrequencyState)
        ensures
            r.wf(),
            sfs_fresh(r, frequency_millihertz),
            r.frequency() == frequency_millihertz,
            r.count() == 0,
            r.norms_pushed().len() == 0,
            r.maxima_pushed().len() == 0,
            r.running_max() == 0,
            r.stats() == (ActivityThresholdStats { threshold: i64::MAX, increment: 1i64 }),
            r.candidate() == (ActivityThresholdStats { threshold: i64::MAX, increment: 1i64 }),
    {
        SingleFrequencyState {
            frequency_millihertz,
            raw_signal_values: Window::new(FFT_WINDOW, RAW_VALUE_BOUND),
            direction_re: Window::new(FFT_WINDOW, SCALE),
            direction_im: Window::new(FFT_WINDOW, SCALE),
            nudft_summand_re: Window::new(FFT_WINDOW, RAW_VALUE_BOUND),
            nudft_summand_im: Window::new(FFT_WINDOW, RAW_VALUE_BOUND),
            corrected_nudft_norms: Window::new(FFT_HISTORY_SIZE, NORM_BOUND),
            chunk_maxima: Window::new(MAXIMA_CHUNKS, NORM_BOUND),
            running_max_of_current_chunk: 0,
            activity_threshold_stats: ActivityThresholdStats::default(),
            activity_threshold_stats_candidate: ActivityThresholdStats::default(),
        }
    }
}

/// The corrected component magnitude that observing (value, time)
/// appends, given the held window contents before the observation:
/// the magnitude of mean(value * phasor) minus
/// mean(value) * mean(phasor) over the windows as they stand after
/// the three pushes.
pub open spec fn corrected_norm_from(
    frequency_millihertz: int,
    raw: Seq<i64>,
    dre_held: Seq<i64>,
    dim_held: Seq<i64>,
    sre_held: Seq<i64>,
    sim_held: Seq<i64>,
    value: i64,
    time_micros: int,
) -> int {
    let dre = direction_re_spec(frequency_millihertz, time_micros);
    let dim = direction_im_spec(frequency_millihertz, time_micros);
    let sre = div_trunc_spec(value * dre, SCALE as int);
    let sim = div_trunc_spec(value * dim, SCALE as int);
    let raw_after = window_after_push(raw, FFT_WINDOW as int, value);
    let dre_after = window_after_push(dre_held, FFT_WINDOW as int, dre as i64);
    let dim_after = window_after_push(dim_held, FFT_WINDOW as int, dim as i64);
    let sre_after = window_after_push(sre_held, FFT_WINDOW as int, sre as i64);
    let sim_after = window_after_push(sim_held, FFT_WINDOW as int, sim as i64);
    let corrected_re = mean_of(sre_after) - div_trunc_spec(
        mean_of(raw_after) * mean_of(dre_after),
        SCALE as int,
    );
    let corrected_im = mean_of(sim_after) - div_trunc_spec(
        mean_of(raw_after) * mean_of(dim_after),
        SCALE as int,
    );
    isqrt_spec((corrected_re * corrected_re + corrected_im * corrected_im) as nat) as int
}

/// The corrected component magnitude a tracker appends for (value,
/// time), from its current window contents.
pub open spec fn corrected_norm_spec(st: SingleFrequencyState, value: i64, time_micros: int) -> int {
    corrected_norm_from(
        st.frequency() as int,
        st.raw_values(),
        st.dir_re_values(),
        st.dir_im_values(),
        st.sum_re_values(),
        st.sum_im_values(),
        value,
        time_micros,
    )
}

/// The noise-floor candidate derived from the retained chunk maxima:
/// the smallest of the top non-adjacent maxima as threshold, their
/// spread (floored at one unit) as increment.
pub open spec fn candidate_spec(maxima: Seq<i64>) -> ActivityThresholdStats {
    let tops = top_nonadjacent_spec(maxima, 5);
    ActivityThresholdStats {
        threshold: tops.last(),
        increment: increment_spec(tops) as i64,
    }
}

/// Calibration law: the candidate noise floor is the smallest of the
/// greedily extracted top non-adjacent maxima — it never exceeds any
/// of the top values, and in particular never exceeds the greatest
/// retained chunk maximum; a single burst cannot pin the floor at its
/// own peak.
pub proof fn lemma_candidate_threshold_is_smallest_top(maxima: Seq<i64>)
    requires
        maxima.len() >= 1,
    ensures
        candidate_spec(maxima).threshold == top_nonadjacent_spec(maxima, 5).last(),
        forall|i: int|
            0 <= i < top_nonadjacent_spec(maxima, 5).len() ==> candidate_spec(maxima).threshold
                <= #[trigger] top_nonadjacent_spec(maxima, 5)[i],
        candidate_spec(maxima).threshold <= maxima[crate::calibration::argmax_last_spec(maxima)],
{
    crate::calibration::lemma_top_nonadjacent_head(maxima, 5);
    crate::calibration::lemma_top_nonadjacent_sorted(maxima, 5);
}

/// How one observation transforms a tracker: every window advances by
/// its prescribed value; at a chunk boundary the running maximum is
/// recorded and a fresh candidate floor is derived; the candidate is
/// committed only `ACTIVITY_ONSET_LEEWAY` samples into a chunk and
/// only while the channel is idle.
pub open spec fn sfs_step(
    pre: SingleFrequencyState,
    post: SingleFrequencyState,
    value: i64,
    time_micros: int,
    signal_idle: bool,
) -> bool {
    let dre = direction_re_spec(pre.frequency() as int, time_micros);
    let dim = direction_im_spec(pre.frequency() as int, time_micros);
    let sre = div_trunc_spec(value * dre, SCALE as int);
    let sim = div_trunc_spec(value * dim, SCALE as int);
    let norm = corrected_norm_spec(pre, value, time_micros);
    let count = pre.count() + 1;
    let chunk_phase = count as int % (MAXIMUM_CHUNK_SIZE as int);
    let top_of_chunk = if norm > pre.running_max() {
        norm as i64
    } else {
        pre.running_max()
    };
    &&& post.frequency() == pre.frequency()
    &&& post.count() == count
    &&& post.raw_values() == window_after_push(pre.raw_values(), FFT_WINDOW as int, value)
    &&& post.dir_re_values() == window_after_push(
        pre.dir_re_values(),
        FFT_WINDOW as int,
        dre as i64,
    )
    &&& post.dir_im_values() == window_after_push(
        pre.dir_im_values(),
        FFT_WINDOW as int,
        dim as i64,
    )
    &&& post.sum_re_values() == window_after_push(
        pre.sum_re_values(),
        FFT_WINDOW as int,
        sre as i64,
    )
    &&& post.sum_im_values() == window_after_push(
        pre.sum_im_values(),
        FFT_WINDOW as int,
        sim as i64,
    )
    &&& post.norms_pushed() == pre.norms_pushed().push(norm as i64)
    &&& (if chunk_phase == 0 {
        &&& post.maxima_pushed() == pre.maxima_pushed().push(top_of_chunk)
        &&& post.running_max() == 0
        &&& post.candidate() == candidate_spec(
            window_after_push(pre.maxima_values(), MAXIMA_CHUNKS as int, top_of_chunk),
        )
    } else {
        &&& post.maxima_pushed() == pre.maxima_pushed()
        &&& post.running_max() == top_of_chunk
        &&& post.candidate() == pre.candidate()
    })
    &&& post.stats() == (if chunk_phase == ACTIVITY_ONSET_LEEWAY as int && signal_idle {
        pre.candidate()
    } else {
        pre.stats()
    })
}

impl SingleFrequencyState {
    /// Feeds one raw sample (already in fixed-point units) at the
    /// given time. The whole transformation is pinned down by
    /// `sfs_step`.
    pub fn observe_raw_signal_value(
        &mut self,
        raw_signal_value: i64,
        time_micros: u64,
        signal_idle: bool,
    )
        requires
            old(self).wf(),
            0 <= raw_signal_value <= RAW_VALUE_BOUND,
            old(self).count() < u64::MAX - 1,
        ensures
            final(self).wf(),
            sfs_step(
                *old(self),
                *final(self),
                raw_signal_value,
                time_micros as int,
                signal_idle,
            ),
    {
        let phase = phase_of(self.frequency_millihertz, time_micros);
        let dre = cos_fp(phase);
        let dim = sin_fp(phase);
        proof {
            lemma_mul_abs_le(raw_signal_value as int, dre as int, RAW_VALUE_BOUND as int, SCALE as int);
            lemma_mul_abs_le(raw_signal_value as int, dim as int, RAW_VALUE_BOUND as int, SCALE as int);
            lemma_div_trunc_bound(
                raw_signal_value as int * dre as int,
                SCALE as int,
                50_000_000_000_000,
            );
            lemma_div_trunc_bound(
                raw_signal_value as int * dim as int,
                SCALE as int,
                50_000_000_000_000,
            );
            assert(50_000_000_000_000int / 1_000_000int == 50_000_000);
        }
        let sre = mul_scaled(raw_signal_value, dre);
        let sim = mul_scaled(raw_signal_value, dim);
        self.raw_signal_values.push(raw_signal_value);
        self.direction_re.push(dre);
        self.direction_im.push(dim);
        self.nudft_summand_re.push(sre);
        self.nudft_summand_im.push(sim);

        let m_raw = self.raw_signal_values.mean();
        let m_dre = self.direction_re.mean();
        let m_dim = self.direction_im.mean();
        let m_sre = self.nudft_summand_re.mean();
        let m_sim = self.nudft_summand_im.mean();
        proof {
            lemma_mul_abs_le(m_raw as int, m_dre as int, RAW_VALUE_BOUND as int, SCALE as int);
            lemma_mul_abs_le(m_raw as int, m_dim as int, RAW_VALUE_BOUND as int, SCALE as int);
            lemma_div_trunc_bound(m_raw as int * m_dre as int, SCALE as int, 50_000_000_000_000);
            lemma_div_trunc_bound(m_raw as int * m_dim as int, SCALE as int, 50_000_000_000_000);
            assert(50_000_000_000_000int / 1_000_000int == 50_000_000);
        }
        let corrected_re = m_sre - mul_scaled(m_raw, m_dre);
        let corrected_im = m_sim - mul_scaled(m_raw, m_dim);

        let abs_re: u64 = if corrected_re >= 0 {
            corrected_re as u64
        } else {
            (-corrected_re) as u64
        };
        let abs_im: u64 = if corrected_im >= 0 {
            corrected_im as u64
        } else {
            (-corrected_im) as u64
        };
        proof {
            lemma_mul_abs_le(abs_re as int, abs_re as int, 100_000_000, 100_000_000);
            lemma_mul_abs_le(abs_im as int, abs_im as int, 100_000_000, 100_000_000);
        }
        let norm_sq: u64 = abs_re * abs_re + abs_im * abs_im;
        let norm_u = isqrt(norm_sq);
        proof {
            lemma_isqrt_spec_bounds(norm_sq as nat);
            assert(norm_u <= NORM_BOUND) by (nonlinear_arith)
                requires
                    (norm_u as int) * (norm_u as int) <= norm_sq as int,
                    norm_sq <= 20_000_000_000_000_000,
                    norm_u >= 0,
                    NORM_BOUND == 150_000_000,
            ;
            assert((abs_re as int) * (abs_re as int) == (corrected_re as int) * (corrected_re as int))
                by (nonlinear_arith)
                requires
                    abs_re as int == (if corrected_re >= 0 { corrected_re as int } else { -(corrected_re as int) }),
            ;
            assert((abs_im as int) * (abs_im as int) == (corrected_im as int) * (corrected_im as int))
                by (nonlinear_arith)
                requires
                    abs_im as int == (if corrected_im >= 0 { corrected_im as int } else { -(corrected_im as int) }),
            ;
        }
        let norm: i64 = norm_u as i64;
        self.corrected_nudft_norms.push(norm);
        if norm > self.running_max_of_current_chunk {
            self.running_max_of_current_chunk = norm;
        }
        let chunk_phase = self.corrected_nudft_norms.num_values_seen() % (MAXIMUM_CHUNK_SIZE as u64);
        if chunk_phase == 0 {
            self.chunk_maxima.push(self.running_max_of_current_chunk);
            self.running_max_of_current_chunk = 0;
            let maxima_vals = self.chunk_maxima.values();
            proof {
                self.chunk_maxima.lemma_values_suffix();
                let mp = self.chunk_maxima.pushed();
                let op = old(self).chunk_maxima.pushed();
                assert forall|i: int| 0 <= i < mp.len() implies 0 <= #[trigger] mp[i]
                    <= NORM_BOUND by {
                    if i < op.len() {
                        assert(mp[i] == op[i]);
                        assert(0 <= old(self).maxima_pushed()[i] <= NORM_BOUND);
                    }
                }
                assert forall|i: int| 0 <= i < maxima_vals@.len() implies 0
                    <= #[trigger] maxima_vals@[i] <= NORM_BOUND by {
                    assert(maxima_vals@[i] == mp[mp.len() - maxima_vals@.len() + i]);
                }
            }
            let tops = top_nonadjacent_maxima(&maxima_vals);
            proof {
                lemma_top_nonadjacent_bounds(maxima_vals@, 5, 0, NORM_BOUND as int);
            }
            let threshold: i64 = tops[tops.len() - 1];
            let increment: i64 = increment_from(&tops);
            self.activity_threshold_stats_candidate = ActivityThresholdStats {
                threshold,
                increment,
            };
        }
        if chunk_phase == ACTIVITY_ONSET_LEEWAY as u64 && signal_idle {
            self.activity_threshold_stats = self.activity_threshold_stats_candidate;
        }
        proof {
            let np = self.corrected_nudft_norms.pushed();
            let onp = old(self).corrected_nudft_norms.pushed();
            assert forall|i: int| 0 <= i < np.len() implies 0 <= #[trigger] np[i]
                <= NORM_BOUND by {
                if i < onp.len() {
                    assert(np[i] == onp[i]);
                    assert(0 <= old(self).norms_pushed()[i] <= NORM_BOUND);
                }
            }
            let mp = self.chunk_maxima.pushed();
            let omp = old(self).chunk_maxima.pushed();
            assert forall|i: int| 0 <= i < mp.len() implies 0 <= #[trigger] mp[i]
                <= NORM_BOUND by {
                if i < omp.len() {
                    assert(mp[i] == omp[i]);
                    assert(0 <= old(self).maxima_pushed()[i] <= NORM_BOUND);
                }
            }
        }
    }

    /// The committed noise floor.
    pub fn activity_threshold_stats(&self) -> (r: ActivityThresholdStats)
        ensures
            r == self.stats(),
    {
        self.activity_threshold_stats
    }

    /// The latest corrected component magnitude, if any.
    pub fn latest_norm(&self) -> (r: Option<i64>)
        requires
            self.wf(),
        ensures
            match r {
                Some(v) => self.norms_values().len() > 0 && v == self.norms_values().last(),
                None => self.norms_values().len() == 0,
            },
    {
        self.corrected_nudft_norms.last()
    }

    /// A tracker that has observed anything retains at least one
    /// magnitude, and every retained magnitude is within its bound.
    pub proof fn lemma_norms_nonempty(&self)
        requires
            self.wf(),
            self.count() > 0,
        ensures
            self.norms_values().len() > 0,
            0 <= self.norms_values().last() <= NORM_BOUND,
    {
        self.corrected_nudft_norms.lemma_values_suffix();
        let vals = self.norms_values();
        let p = self.norms_pushed();
        assert(vals.last() == p[p.len() - vals.len() + (vals.len() - 1)]);
    }

    /// How far the latest magnitude stands above the committed noise
    /// floor, in increments, clamped between zero and the given cap.
    pub fn latest_activity_level(&self, max_contribution: i64) -> (r: i64)
        requires
            self.wf(),
            self.norms_values().len() > 0,
            max_contribution >= 0,
        ensures
            r == activity_level_spec(
                self.norms_values().last() as int,
                self.stats().threshold as int,
                self.stats().increment as int,
                max_contribution as int,
            ),
            0 <= r <= max_contribution,
    {
        let latest = match self.corrected_nudft_norms.last() {
            Some(v) => v,
            None => 0,  // unreachable: the window is non-empty
        };
        proof {
            self.corrected_nudft_norms.lemma_values_suffix();
        }
        if latest <= self.activity_threshold_stats.threshold {
            0
        } else {
            proof {
                assert(0 <= latest <= NORM_BOUND);
                lemma_div_trunc_bound(
                    latest as int - self.activity_threshold_stats.threshold as int,
                    self.activity_threshold_stats.increment as int,
                    NORM_BOUND as int,
                );
            }
            let d = div_trunc(
                latest - self.activity_threshold_stats.threshold,
                self.activity_threshold_stats.increment,
            );
            if d > max_contribution {
                max_contribution
            } else {
                d
            }
        }
    }
}

/// Activity level: zero at or below the floor, otherwise the excess
/// over the floor in increments, clamped between zero and the cap.
pub open spec fn activity_level_spec(latest: int, threshold: int, increment: int, cap: int) -> int {
    if latest <= threshold {
        0
    } else {
        let d = div_trunc_spec(latest - threshold, increment);
        if d < 0 {
            0
        } else if d > cap {
            cap
        } else {
            d
        }
    }
}

/// How long activity must stay at or below the threshold before an
/// active channel deactivates.
pub const SUSTAIN_HOLDOFF_MICROS: i64 = 100_000;

/// How long after a deactivation the channel refuses to reactivate,
/// so that reactivation is never judged against a floor the previous
/// gesture may have contaminated.
pub const REACTIVATION_DELAY_MICROS: i64 = 400_000;

/// Samples that must pass after a deactivation before the channel
/// counts as idle for calibration purposes: one full maxima
/// collection cycle (MAXIMUM_CHUNK_SIZE times MAXIMA_CHUNKS samples)
/// plus the onset leeway.
pub const IDLE_SAMPLE_GAP: i64 = 3_050;

/// Bound on times and sample counts fed to the classifier, leaving
/// headroom for every time comparison to stay within i64.
pub const TIME_LIMIT_MICROS: u64 = 4_000_000_000_000_000;

/// Number of recent scaled raw inputs retained for diagnostics.
pub const RECENT_RAW_INPUTS_CAP: usize = 1000;

/// How long composite activity history is retained.
pub const HISTORY_RETENTION_MICROS: i64 = 3_000_000;

/// Gesture state of one channel, with the timestamps hysteresis
/// needs.
#[derive(Clone, Copy, PartialEq, Eq, Structural, Debug)]
pub enum ActiveState {
    Active { last_sustained_time: i64 },
    Inactive { last_deactivated_time: i64, last_deactivated_sample: i64 },
}

impl ActiveState {
    /// Times recorded in the state stay within the range arithmetic
    /// allows.
    pub open spec fn wf(&self) -> bool {
        match *self {
            ActiveState::Active { last_sustained_time } => last_sustained_time
                <= TIME_LIMIT_MICROS as i64,
            ActiveState::Inactive { last_deactivated_time, last_deactivated_sample } => {
                &&& last_deactivated_time <= TIME_LIMIT_MICROS as i64
                &&& last_deactivated_sample <= TIME_LIMIT_MICROS as i64
            },
        }
    }
}

impl Default for ActiveState {
    /// Inactive since forever: both timestamps at the minimum, so the
    /// reactivation delay and the idle gap are long past.
    fn default() -> (r: ActiveState)
        ensures
            r == (ActiveState::Inactive {
                last_deactivated_time: i64::MIN,
                last_deactivated_sample: i64::MIN,
            }),
            r.wf(),
    {
        ActiveState::Inactive {
            last_deactivated_time: i64::MIN,
            last_deactivated_sample: i64::MIN,
        }
    }
}

/// One step of the hysteretic state machine, judged on the composite
/// activity `value` against `threshold` at `time`:
/// - active, above threshold: stay active, refreshing the sustained
///   time;
/// - active, at or below threshold: deactivate only once the hold-off
///   has elapsed since activity was last sustained;
/// - inactive, above threshold: activate only once the reactivation
///   delay has elapsed since deactivation.
pub open spec fn active_state_step_spec(
    st: ActiveState,
    value: int,
    threshold: int,
    time: int,
    total_inputs: int,
) -> ActiveState {
    match st {
        ActiveState::Active { last_sustained_time } => {
            if value > threshold {
                ActiveState::Active { last_sustained_time: time as i64 }
            } else if time > last_sustained_time + SUSTAIN_HOLDOFF_MICROS {
                ActiveState::Inactive {
                    last_deactivated_time: time as i64,
                    last_deactivated_sample: total_inputs as i64,
                }
            } else {
                st
            }
        },
        ActiveState::Inactive { last_deactivated_time, .. } => {
            if time > last_deactivated_time + REACTIVATION_DELAY_MICROS && value > threshold {
                ActiveState::Active { last_sustained_time: time as i64 }
            } else {
                st
            }
        },
    }
}

impl ActiveState {
    /// Advances the state machine by one judgment.
    pub fn step(self, value: i64, threshold: i64, time_micros: i64, total_inputs: i64) -> (r:
        ActiveState)
        requires
            self.wf(),
            0 <= time_micros <= TIME_LIMIT_MICROS as i64,
            0 <= total_inputs <= TIME_LIMIT_MICROS as i64,
        ensures
            r == active_state_step_spec(
                self,
                value as int,
                threshold as int,
                time_micros as int,
                total_inputs as int,
            ),
            r.wf(),
    {
        match self {
            ActiveState::Active { last_sustained_time } => {
                if value > threshold {
                    ActiveState::Active { last_sustained_time: time_micros }
                } else if last_sustained_time < i64::MAX - SUSTAIN_HOLDOFF_MICROS && time_micros
                    > last_sustained_time + SUSTAIN_HOLDOFF_MICROS {
                    ActiveState::Inactive {
                        last_deactivated_time: time_micros,
                        last_deactivated_sample: total_inputs,
                    }
                } else {
                    self
                }
            },
            ActiveState::Inactive { last_deactivated_time, .. } => {
                if last_deactivated_time < i64::MAX - REACTIVATION_DELAY_MICROS && time_micros
                    > last_deactivated_time + REACTIVATION_DELAY_MICROS && value > threshold {
                    ActiveState::Active { last_sustained_time: time_micros }
                } else {
                    self
                }
            },
        }
    }
}

/// Hysteresis, first half: within the reactivation delay of the last
/// deactivation no activity level whatsoever reactivates the channel,
/// so a brief threshold crossing there never turns the channel
/// active.
pub proof fn lemma_no_reactivation_within_delay(
    st: ActiveState,
    value: int,
    threshold: int,
    time: int,
    total_inputs: int,
)
    requires
        st matches ActiveState::Inactive { last_deactivated_time, .. } && time
            <= last_deactivated_time + REACTIVATION_DELAY_MICROS,
    ensures
        active_state_step_spec(st, value, threshold, time, total_inputs) == st,
{
}

/// Hysteresis, second half: once the reactivation delay has elapsed,
/// a crossing of the threshold does activate the channel.
pub proof fn lemma_activation_after_delay(
    st: ActiveState,
    value: int,
    threshold: int,
    time: int,
    total_inputs: int,
)
    requires
        st matches ActiveState::Inactive { last_deactivated_time, .. } && time
            > last_deactivated_time + REACTIVATION_DELAY_MICROS,
        value > threshold,
    ensures
        active_state_step_spec(st, value, threshold, time, total_inputs) == (ActiveState::Active {
            last_sustained_time: time as i64,
        }),
{
}

/// An active channel rides out a dip no longer than the hold-off:
/// chatter at the threshold boundary does not deactivate it.
pub proof fn lemma_no_deactivation_within_holdoff(
    st: ActiveState,
    value: int,
    threshold: int,
    time: int,
    total_inputs: int,
)
    requires
        st matches ActiveState::Active { last_sustained_time } && time <= last_sustained_time
            + SUSTAIN_HOLDOFF_MICROS,
        value <= threshold,
    ensures
        active_state_step_spec(st, value, threshold, time, total_inputs) == st,
{
}

/// Once activity has stayed at or below the threshold past the
/// hold-off, the channel deactivates and records the time and sample.
pub proof fn lemma_deactivation_after_holdoff(
    st: ActiveState,
    value: int,
    threshold: int,
    time: int,
    total_inputs: int,
)
    requires
        st matches ActiveState::Active { last_sustained_time } && time > last_sustained_time
            + SUSTAIN_HOLDOFF_MICROS,
        value <= threshold,
    ensures
        active_state_step_spec(st, value, threshold, time, total_inputs) == (
        ActiveState::Inactive {
            last_deactivated_time: time as i64,
            last_deactivated_sample: total_inputs as i64,
        }),
{
}

/// Idle for calibration purposes: inactive, and long enough past the
/// deactivation sample that a whole maxima collection cycle plus the
/// onset leeway lies inside the quiet span.
pub open spec fn signal_idle_spec(st: ActiveState, total_inputs_after: int) -> bool {
    match st {
        ActiveState::Inactive { last_deactivated_sample, .. } => last_deactivated_sample
            + IDLE_SAMPLE_GAP < total_inputs_after,
        ActiveState::Active { .. } => false,
    }
}

/// One composite activity sample retained for diagnostics, in
/// fixed-point units: the value is normalized so that the threshold
/// reads as one unit.
#[derive(Clone, Copy, PartialEq, Eq, Structural, Debug)]
pub struct HistoryFrame {
    pub time: i64,
    pub value_ratio: i64,
    pub activity_threshold: i64,
    pub too_much_threshold: i64,
}

/// One per-frequency diagnostic snapshot, in fixed-point units: the
/// latest magnitude and committed floor of every bin (scaled for
/// display) and each bin's activity level normalized so the
/// per-frequency cap reads as one unit.
#[derive(Clone, PartialEq, Debug)]
pub struct FrequenciesFrame {
    pub time: i64,
    pub scaled_norms: Vec<i64>,
    pub scaled_thresholds: Vec<i64>,
    pub normalized_activities: Vec<i64>,
}

/// The scaled fixed-point form of one raw electrode sample.
pub open spec fn scaled_input_spec(raw_value: u16) -> int {
    (raw_value * SCALE) / 1500
}

/// Sum of the per-frequency activity levels of the given trackers,
/// each judged on its latest magnitude against its committed floor.
pub open spec fn aggregate_spec(states: Seq<SingleFrequencyState>, cap: int) -> int
    decreases states.len(),
{
    if states.len() == 0 {
        0
    } else {
        let st = states.last();
        aggregate_spec(states.drop_last(), cap) + activity_level_spec(
            st.norms_values().last() as int,
            st.stats().threshold as int,
            st.stats().increment as int,
            cap,
        )
    }
}

proof fn lemma_aggregate_bound(states: Seq<SingleFrequencyState>, cap: int)
    requires
        0 <= cap <= 1_000_000_000,
    ensures
        0 <= aggregate_spec(states, cap) <= states.len() * 1_000_000_000,
    decreases states.len(),
{
    if states.len() > 0 {
        lemma_aggregate_bound(states.drop_last(), cap);
    }
}

/// A history sequence with every stale frame removed from the front.
pub open spec fn drop_stale_spec(h: Seq<HistoryFrame>, cutoff: int) -> Seq<HistoryFrame>
    decreases h.len(),
{
    if h.len() > 0 && h[0].time < cutoff {
        drop_stale_spec(h.subrange(1, h.len() as int), cutoff)
    } else {
        h
    }
}

/// A tracker that has seen nothing yet: the views a fresh tracker for
/// the given frequency presents.
pub open spec fn sfs_fresh(st: SingleFrequencyState, frequency_millihertz: u64) -> bool {
    &&& st.frequency() == frequency_millihertz
    &&& st.count() == 0
    &&& st.raw_values() == Seq::<i64>::empty()
    &&& st.dir_re_values() == Seq::<i64>::empty()
    &&& st.dir_im_values() == Seq::<i64>::empty()
    &&& st.sum_re_values() == Seq::<i64>::empty()
    &&& st.sum_im_values() == Seq::<i64>::empty()
    &&& st.norms_pushed() == Seq::<i64>::empty()
    &&& st.maxima_pushed() == Seq::<i64>::empty()
    &&& st.maxima_values() == Seq::<i64>::empty()
    &&& st.running_max() == 0
    &&& st.stats() == (ActivityThresholdStats { threshold: i64::MAX, increment: 1i64 })
    &&& st.candidate() == (ActivityThresholdStats { threshold: i64::MAX, increment: 1i64 })
}

/// One logical channel: total samples seen, recent scaled inputs,
/// composite activity history, the per-frequency trackers across the
/// analysis band, the latest composite activity level, and the
/// channel's gesture state.
pub struct Signal {
    pub total_inputs: u64,
    pub recent_raw_inputs: VecDeque<i64>,
    pub history: VecDeque<HistoryFrame>,
    pub frequency_states: Vec<SingleFrequencyState>,
    pub aggregate_activity_level: i64,
    pub active_state: ActiveState,
}

impl Signal {
    pub open spec fn wf(&self) -> bool {
        &&& self.frequency_states@.len() == 0 || self.frequency_states@.len() == FFT_WINDOW - 1
        &&& self.frequency_states@.len() == 0 ==> self.total_inputs == 0
        &&& forall|i: int|
            0 <= i < self.frequency_states@.len() ==> (#[trigger] self.frequency_states@[i]).wf()
        &&& forall|i: int|
            0 <= i < self.frequency_states@.len() ==> (
            #[trigger] self.frequency_states@[i]).count() == self.total_inputs
        &&& forall|i: int|
            0 <= i < self.frequency_states@.len() ==> (
            #[trigger] self.frequency_states@[i]).frequency() == 20_000 * (i + 1)
        &&& self.recent_raw_inputs@.len() <= RECENT_RAW_INPUTS_CAP
        &&& self.active_state.wf()
    }

    /// Whether the channel is currently judged active.
    pub fn is_active(&self) -> (r: bool)
        ensures
            r == (self.active_state is Active),
    {
        match self.active_state {
            ActiveState::Active { .. } => true,
            ActiveState::Inactive { .. } => false,
        }
    }

    /// The per-frequency diagnostic snapshot pushed to an observer:
    /// one row of scaled latest magnitudes, one of scaled committed
    /// floors (an uncalibrated floor reads as the magnitude bound),
    /// and one of activity levels normalized so the per-frequency cap
    /// reads as one unit.
    #[verifier::loop_isolation(false)]
    pub fn frequencies_frame(&self, time_micros: u64, variables: &Variables) -> (r:
        FrequenciesFrame)
        requires
            self.wf(),
            self.total_inputs > 0,
            variables.wf(),
            variables.max_activity_contribution_per_frequency >= 1,
            time_micros <= TIME_LIMIT_MICROS,
        ensures
            r.time == time_micros as i64,
            r.scaled_norms@.len() == self.frequency_states@.len(),
            r.scaled_thresholds@.len() == self.frequency_states@.len(),
            r.normalized_activities@.len() == self.frequency_states@.len(),
            forall|i: int|
                0 <= i < self.frequency_states@.len() ==> #[trigger] r.scaled_norms@[i] == 50 * (
                #[trigger] self.frequency_states@[i]).norms_values().last(),
            forall|i: int|
                0 <= i < self.frequency_states@.len() ==> #[trigger] r.scaled_thresholds@[i] == 50
                    * vstd::math::min(
                    self.frequency_states@[i].stats().threshold as int,
                    NORM_BOUND as int,
                ),
            forall|i: int|
                0 <= i < self.frequency_states@.len() ==> #[trigger] r.normalized_activities@[i]
                    == div_trunc_spec(
                    activity_level_spec(
                        self.frequency_states@[i].norms_values().last() as int,
                        self.frequency_states@[i].stats().threshold as int,
                        self.frequency_states@[i].stats().increment as int,
                        variables.max_activity_contribution_per_frequency as int,
                    ) * SCALE,
                    variables.max_activity_contribution_per_frequency as int,
                ),
    {
        let mut scaled_norms: Vec<i64> = Vec::new();
        let mut scaled_thresholds: Vec<i64> = Vec::new();
        let mut normalized_activities: Vec<i64> = Vec::new();
        let cap = variables.max_activity_contribution_per_frequency;
        let mut j: usize = 0;
        while j < self.frequency_states.len()
            invariant
                0 <= j <= self.frequency_states@.len(),
                scaled_norms@.len() == j,
                scaled_thresholds@.len() == j,
                normalized_activities@.len() == j,
                forall|i: int|
                    0 <= i < j ==> #[trigger] scaled_norms@[i] == 50 * (
                    #[trigger] self.frequency_states@[i]).norms_values().last(),
                forall|i: int|
                    0 <= i < j ==> #[trigger] scaled_thresholds@[i] == 50 * vstd::math::min(
                        self.frequency_states@[i].stats().threshold as int,
                        NORM_BOUND as int,
                    ),
                forall|i: int|
                    0 <= i < j ==> #[trigger] normalized_activities@[i] == div_trunc_spec(
                        activity_level_spec(
                            self.frequency_states@[i].norms_values().last() as int,
                            self.frequency_states@[i].stats().threshold as int,
                            self.frequency_states@[i].stats().increment as int,
                            cap as int,
                        ) * SCALE,
                        cap as int,
                    ),
            decreases self.frequency_states@.len() - j,
        {
            let state = &self.frequency_states[j];
            proof {
                state.lemma_norms_nonempty();
            }
            let latest = match state.latest_norm() {
                Some(v) => v,
                None => 0,  // not reachable: the tracker has observed at least one sample
            };
            scaled_norms.push(50 * latest);
            let threshold = state.activity_threshold_stats().threshold;
            let clamped = if threshold > NORM_BOUND {
                NORM_BOUND
            } else {
                threshold
            };
            scaled_thresholds.push(50 * clamped);
            let level = state.latest_activity_level(cap);
            proof {
                crate::numeric::lemma_mul_le(level as int, SCALE as int, 1_000_000_000, 1_000_000);
            }
            normalized_activities.push(div_trunc(level * SCALE, cap));
            j = j + 1;
        }
        FrequenciesFrame { time: time_micros as i64, scaled_norms, scaled_thresholds, normalized_activities }
    }
}

/// A tracker after its very first observation: every window holds
/// just its prescribed first value, the first chunk is still open,
/// and both noise floors are untouched.
pub open spec fn sfs_first_step(
    post: SingleFrequencyState,
    frequency_millihertz: u64,
    value: i64,
    time_micros: int,
) -> bool {
    let e = Seq::<i64>::empty();
    let dre = direction_re_spec(frequency_millihertz as int, time_micros);
    let dim = direction_im_spec(frequency_millihertz as int, time_micros);
    let sre = div_trunc_spec(value * dre, SCALE as int);
    let sim = div_trunc_spec(value * dim, SCALE as int);
    let norm = corrected_norm_from(
        frequency_millihertz as int,
        e,
        e,
        e,
        e,
        e,
        value,
        time_micros,
    );
    &&& post.frequency() == frequency_millihertz
    &&& post.count() == 1
    &&& post.raw_values() == e.push(value)
    &&& post.dir_re_values() == e.push(dre as i64)
    &&& post.dir_im_values() == e.push(dim as i64)
    &&& post.sum_re_values() == e.push(sre as i64)
    &&& post.sum_im_values() == e.push(sim as i64)
    &&& post.norms_pushed() == e.push(norm as i64)
    &&& post.maxima_pushed() == e
    &&& post.running_max() == (if norm > 0 {
        norm as i64
    } else {
        0i64
    })
    &&& post.stats() == (ActivityThresholdStats { threshold: i64::MAX, increment: 1i64 })
    &&& post.candidate() == (ActivityThresholdStats { threshold: i64::MAX, increment: 1i64 })
}

/// The trackers as they stand after their very first observation:
/// each position holds a fresh tracker for its frequency bin stepped
/// once on the given value.
pub open spec fn trackers_started(
    states: Seq<SingleFrequencyState>,
    value: i64,
    time_micros: int,
) -> bool {
    forall|i: int|
        #![trigger states[i]]
        0 <= i < states.len() ==> sfs_first_step(
            states[i],
            (20_000 * (i + 1)) as u64,
            value,
            time_micros,
        )
}

/// Whether a composite activity frame (and a state-machine step) is
/// due: the rolling input window is full and the sample count has
/// reached a frame boundary.
pub open spec fn frame_due(recent_len_after: int, total_after: int) -> bool {
    recent_len_after >= FFT_WINDOW && total_after % (FRAMES_PER_FFT as int) == 0
}

/// The composite activity frame produced at a frame boundary: the
/// activity level normalized so that the threshold reads as one unit.
pub open spec fn history_frame_spec(agg: int, activity_threshold: int, time_micros: int)
    -> HistoryFrame {
    HistoryFrame {
        time: time_micros as i64,
        value_ratio: div_trunc_spec(agg * SCALE, activity_threshold) as i64,
        activity_threshold: SCALE,
        too_much_threshold: (2 * SCALE) as i64,
    }
}

/// How one raw sample transforms a whole channel: the sample count
/// advances, the scaled value enters the recent-input window, every
/// per-frequency tracker steps by `sfs_step` (or starts fresh on the
/// very first sample), the composite activity level is recomputed,
/// and — exactly at frame boundaries once the input window is full —
/// a history frame is recorded and the gesture state machine advances
/// on the composite level.
pub open spec fn signal_step_rel(
    pre: Signal,
    post: Signal,
    raw_value: u16,
    time_micros: int,
    variables: Variables,
) -> bool {
    let scaled = scaled_input_spec(raw_value) as i64;
    let agg = aggregate_spec(
        post.frequency_states@,
        variables.max_activity_contribution_per_frequency as int,
    );
    let due = frame_due(post.recent_raw_inputs@.len() as int, post.total_inputs as int);
    let f = history_frame_spec(agg, variables.activity_threshold as int, time_micros);
    &&& post.total_inputs == pre.total_inputs + 1
    &&& post.frequency_states@.len() == FFT_WINDOW - 1
    &&& post.recent_raw_inputs@ == window_after_push(
        pre.recent_raw_inputs@,
        RECENT_RAW_INPUTS_CAP as int,
        scaled,
    )
    &&& (pre.frequency_states@.len() != 0 ==> forall|i: int|
        0 <= i < FFT_WINDOW - 1 ==> sfs_step(
            pre.frequency_states@[i],
            #[trigger] post.frequency_states@[i],
            scaled,
            time_micros,
            signal_idle_spec(pre.active_state, pre.total_inputs + 1),
        ))
    &&& (pre.frequency_states@.len() == 0 ==> trackers_started(
        post.frequency_states@,
        scaled,
        time_micros,
    ))
    &&& post.aggregate_activity_level == agg
    &&& (due ==> post.history@ == drop_stale_spec(
        pre.history@.push(f),
        time_micros - HISTORY_RETENTION_MICROS,
    ) && post.active_state == active_state_step_spec(
        pre.active_state,
        agg,
        variables.activity_threshold as int,
        time_micros,
        pre.total_inputs + 1,
    ))
    &&& (!due ==> post.history@ == pre.history@ && post.active_state == pre.active_state)
}

impl Signal {
    /// Feeds one raw electrode sample at the given time: the sample
    /// is scaled to fixed point and handed to every per-frequency
    /// tracker (created on the first sample, one per 20-Hz step of
    /// the analysis band); the composite activity level is the sum of
    /// the per-frequency activity levels; every `FRAMES_PER_FFT`-th
    /// sample a history frame is produced and the channel's state
    /// machine advances on the composite level.
    #[verifier::loop_isolation(false)]
    #[verifier::rlimit(100)]
    pub fn receive_raw(&mut self, raw_value: u16, time_micros: u64, variables: &Variables) -> (frame:
        Option<HistoryFrame>)
        requires
            old(self).wf(),
            variables.wf(),
            old(self).total_inputs < TIME_LIMIT_MICROS,
            time_micros <= TIME_LIMIT_MICROS,
        ensures
            final(self).wf(),
            signal_step_rel(*old(self), *final(self), raw_value, time_micros as int, *variables),
            ({
                let due = frame_due(
                    final(self).recent_raw_inputs@.len() as int,
                    final(self).total_inputs as int,
                );
                let agg = aggregate_spec(
                    final(self).frequency_states@,
                    variables.max_activity_contribution_per_frequency as int,
                );
                &&& (due ==> frame == Some(
                    history_frame_spec(
                        agg,
                        variables.activity_threshold as int,
                        time_micros as int,
                    ),
                ))
                &&& (!due ==> frame is None)
            }),
    {
        self.total_inputs = self.total_inputs + 1;
        proof {
            crate::numeric::lemma_mul_le(raw_value as int, SCALE as int, 65_535, 1_000_000);
        }
        let scaled: i64 = (((raw_value as u64) * (SCALE as u64)) / 1500) as i64;
        proof {
            vstd::arithmetic::div_mod::lemma_div_is_ordered(
                (raw_value as int) * (SCALE as int),
                65_535_000_000,
                1500,
            );
            vstd::arithmetic::div_mod::lemma_div_pos_is_pos(
                (raw_value as int) * (SCALE as int),
                1500,
            );
            assert(scaled == scaled_input_spec(raw_value));
            assert(0 <= scaled <= RAW_VALUE_BOUND);
        }
        self.recent_raw_inputs.push_back(scaled);
        if self.recent_raw_inputs.len() > RECENT_RAW_INPUTS_CAP {
            let _ = self.recent_raw_inputs.pop_front();
        }
        proof {
            assert(self.recent_raw_inputs@ =~= window_after_push(
                old(self).recent_raw_inputs@,
                RECENT_RAW_INPUTS_CAP as int,
                scaled,
            ));
        }

        let ghost after_push = *self;
        if self.frequency_states.len() == 0 {
            let mut k: usize = 1;
            while k < FFT_WINDOW
                invariant
                    1 <= k <= FFT_WINDOW,
                    self.frequency_states@.len() == k - 1,
                    forall|i: int|
                        0 <= i < k - 1 ==> sfs_fresh(
                            #[trigger] self.frequency_states@[i],
                            (20_000 * (i + 1)) as u64,
                        ),
                    forall|i: int|
                        0 <= i < k - 1 ==> (#[trigger] self.frequency_states@[i]).wf(),
                    self.total_inputs == after_push.total_inputs,
                    self.recent_raw_inputs@ == after_push.recent_raw_inputs@,
                    self.history@ == after_push.history@,
                    self.active_state == after_push.active_state,
                decreases FFT_WINDOW - k,
            {
                let st = SingleFrequencyState::new(20_000u64 * (k as u64));
                self.frequency_states.push(st);
                k = k + 1;
            }
        }

        let signal_idle: bool = match self.active_state {
            ActiveState::Inactive { last_deactivated_sample, .. } => last_deactivated_sample
                < (self.total_inputs as i64) - IDLE_SAMPLE_GAP,
            ActiveState::Active { .. } => false,
        };
        proof {
            assert(signal_idle == signal_idle_spec(
                old(self).active_state,
                old(self).total_inputs + 1,
            ));
        }

        let ghost pre_states = self.frequency_states@;
        let ghost idle_ghost = signal_idle;
        proof {
            assert(forall|i: int|
                0 <= i < pre_states.len() ==> (#[trigger] pre_states[i]).wf() && pre_states[i].count()
                    == old(self).total_inputs && pre_states[i].frequency() == 20_000 * (i + 1));
        }
        let mut idx: usize = 0;
        while idx < self.frequency_states.len()
            invariant
                self.total_inputs == old(self).total_inputs + 1,
                0 <= idx <= self.frequency_states@.len(),
                self.frequency_states@.len() == FFT_WINDOW - 1,
                pre_states.len() == FFT_WINDOW - 1,
                forall|i: int|
                    0 <= i < pre_states.len() ==> (#[trigger] pre_states[i]).wf()
                        && pre_states[i].count() == old(self).total_inputs
                        && pre_states[i].frequency() == 20_000 * (i + 1),
                forall|i: int|
                    idx <= i < pre_states.len() ==> #[trigger] self.frequency_states@[i]
                        == pre_states[i],
                forall|i: int|
                    0 <= i < idx ==> sfs_step(
                        pre_states[i],
                        #[trigger] self.frequency_states@[i],
                        scaled,
                        time_micros as int,
                        idle_ghost,
                    ),
                forall|i: int|
                    0 <= i < idx ==> (#[trigger] self.frequency_states@[i]).wf(),
                self.recent_raw_inputs@ == after_push.recent_raw_inputs@,
                self.history@ == after_push.history@,
                self.active_state == after_push.active_state,
            decreases self.frequency_states@.len() - idx,
        {
            let ghost before = self.frequency_states@;
            let mut st = self.frequency_states.remove(idx);
            st.observe_raw_signal_value(scaled, time_micros, signal_idle);
            self.frequency_states.insert(idx, st);
            proof {
                assert(self.frequency_states@ =~= before.update(idx as int, st));
            }
            idx = idx + 1;
        }

        let cap = variables.max_activity_contribution_per_frequency;
        let mut agg: i64 = 0;
        let mut j: usize = 0;
        proof {
            assert(self.frequency_states@.subrange(0, 0) =~= Seq::<SingleFrequencyState>::empty());
        }
        while j < self.frequency_states.len()
            invariant
                0 <= j <= self.frequency_states@.len(),
                self.frequency_states@.len() == FFT_WINDOW - 1,
                forall|i: int|
                    0 <= i < self.frequency_states@.len() ==> (
                    #[trigger] self.frequency_states@[i]).wf() && self.frequency_states@[i].count()
                        > 0,
                agg == aggregate_spec(self.frequency_states@.subrange(0, j as int), cap as int),
                0 <= agg <= j * 1_000_000_000,
            decreases self.frequency_states@.len() - j,
        {
            proof {
                self.frequency_states@[j as int].lemma_norms_nonempty();
            }
            let level = self.frequency_states[j].latest_activity_level(cap);
            proof {
                let sub1 = self.frequency_states@.subrange(0, j + 1);
                assert(sub1.drop_last() =~= self.frequency_states@.subrange(0, j as int));
                assert(sub1.last() == self.frequency_states@[j as int]);
            }
            agg = agg + level;
            j = j + 1;
        }
        proof {
            assert(self.frequency_states@.subrange(0, self.frequency_states@.len() as int)
                =~= self.frequency_states@);
        }
        self.aggregate_activity_level = agg;

        let ghost pre_frame = *self;
        let mut result: Option<HistoryFrame> = None;
        if self.recent_raw_inputs.len() >= FFT_WINDOW && self.total_inputs % (
        FRAMES_PER_FFT as u64) == 0 {
            proof {
                lemma_aggregate_bound(self.frequency_states@, cap as int);
                crate::numeric::lemma_mul_le(agg as int, SCALE as int, 49_000_000_000, 1_000_000);
            }
            let scaled_agg: i64 = agg * SCALE;
            let value_ratio = div_trunc(scaled_agg, variables.activity_threshold);
            let f = HistoryFrame {
                time: time_micros as i64,
                value_ratio,
                activity_threshold: SCALE,
                too_much_threshold: 2 * SCALE,
            };
            self.history.push_back(f);
            let cutoff: i64 = (time_micros as i64) - HISTORY_RETENTION_MICROS;
            let ghost pushed_history = self.history@;
            while self.history.len() > 0 && self.history[0].time < cutoff
                invariant
                    drop_stale_spec(pushed_history, cutoff as int) == drop_stale_spec(
                        self.history@,
                        cutoff as int,
                    ),
                    self.total_inputs == pre_frame.total_inputs,
                    self.frequency_states@ == pre_frame.frequency_states@,
                    self.recent_raw_inputs@ == pre_frame.recent_raw_inputs@,
                    self.active_state == pre_frame.active_state,
                    self.aggregate_activity_level == pre_frame.aggregate_activity_level,
                decreases self.history@.len(),
            {
                let ghost pre_h = self.history@;
                let _ = self.history.pop_front();
                proof {
                    assert(self.history@ =~= pre_h.subrange(1, pre_h.len() as int));
                }
            }
            result = Some(f);
            self.active_state = self.active_state.step(
                agg,
                variables.activity_threshold,
                time_micros as i64,
                self.total_inputs as i64,
            );
        }
        proof {
            assert forall|i: int| 0 <= i < self.frequency_states@.len() implies (
            #[trigger] self.frequency_states@[i]).count() == self.total_inputs
                && self.frequency_states@[i].frequency() == 20_000 * (i + 1) by {
                assert(sfs_step(
                    pre_states[i],
                    self.frequency_states@[i],
                    scaled,
                    time_micros as int,
                    idle_ghost,
                ));
            }
            if old(self).frequency_states@.len() == 0 {
                let states_now = self.frequency_states@;
                let scaled_ghost = scaled_input_spec(raw_value) as i64;
                assert forall|i: int|
                    #![trigger states_now[i]]
                    0 <= i < states_now.len() implies sfs_first_step(
                    states_now[i],
                    (20_000 * (i + 1)) as u64,
                    scaled_ghost,
                    time_micros as int,
                ) by {
                    assert(sfs_fresh(pre_states[i], (20_000 * (i + 1)) as u64));
                    assert(sfs_step(
                        pre_states[i],
                        states_now[i],
                        scaled_ghost,
                        time_micros as int,
                        idle_ghost,
                    ));
                    assert((pre_states[i].count() + 1) as int % (MAXIMUM_CHUNK_SIZE as int) == 1);
                }
                assert(trackers_started(states_now, scaled_ghost, time_micros as int));
            }
        }
        result
    }
}

impl Default for Signal {
    /// A channel that has seen nothing: no trackers yet (they are
    /// created on the first sample), inactive since forever.
    fn default() -> (r: Signal)
        ensures
            r.wf(),
            r.total_inputs == 0,
            r.frequency_states@.len() == 0,
            r.recent_raw_inputs@.len() == 0,
            r.history@.len() == 0,
            r.aggregate_activity_level == 0,
            r.active_state == (ActiveState::Inactive {
                last_deactivated_time: i64::MIN,
                last_deactivated_sample: i64::MIN,
            }),
    {
        Signal {
            total_inputs: 0,
            recent_raw_inputs: VecDeque::new(),
            history: VecDeque::new(),
            frequency_states: Vec::new(),
            aggregate_activity_level: 0,
            active_state: ActiveState::default(),
        }
    }
}

} // verus!
