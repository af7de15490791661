//! The gain parameter and its smoothing ramp.
//!
//! The parameter's value is an amplitude held in fixed point, as millionths
//! of unity gain. Its range spans the amplitudes of -60 dB (one thousandth)
//! up to 0 dB (unity); the default is unity. A write clamps its argument
//! into that range, re-bases the smoothing ramp at the currently
//! interpolated value, and signals the change-notification flag. Advancing
//! one sample moves the interpolated value linearly in the amplitude domain
//! toward the target, reaching it in exactly the configured ramp length;
//! the ramp length is the number of samples that cover forty milliseconds
//! at the sample rate given on activation.
//!
//! The interpolation is linear in the stored amplitude domain, not in the
//! decibel domain used for display; the ramp is therefore perceptually
//! uneven near the low end of the range, by design.

use vstd::prelude::*;
use vstd::arithmetic::div_mod::lemma_div_basics;
use vstd::arithmetic::div_mod::lemma_div_is_ordered;
use vstd::arithmetic::div_mod::lemma_div_multiples_vanish;
use vstd::arithmetic::div_mod::lemma_div_pos_is_pos;
use vstd::arithmetic::mul::lemma_mul_by_zero_is_zero;
use vstd::arithmetic::mul::lemma_mul_inequality;
use vstd::arithmetic::mul::lemma_mul_is_commutative;
use vstd::arithmetic::mul::lemma_mul_nonnegative;
use vstd::arithmetic::mul::lemma_mul_upper_bound;
use crate::flag::ChangeFlag;
use crate::flag::clean_flag;
use crate::flag::marked_flag;
use crate::flag::lemma_flag_states;

verus! {

/// Lowest storable amplitude, in millionths of unity: the amplitude of -60 dB.
pub const MIN_AMP_MICRO: i64 = 1_000;

/// Highest storable amplitude, in millionths of unity: unity gain, 0 dB.
pub const MAX_AMP_MICRO: i64 = 1_000_000;

/// Length of the smoothing window in milliseconds.
pub const RAMP_MILLIS: u64 = 40;

/// Largest possible ramp length in samples: forty milliseconds at the
/// largest expressible sample rate.
pub const MAX_RAMP_SAMPLES: u64 = 171_798_691;

/// Who asked for a write. The parameter treats every origin alike: the
/// contract of `write` does not depend on it, which is the point — any
/// writer, UI gesture, host automation or internal logic, signals the same
/// flag.
#[derive(Clone, Copy, Debug, PartialEq, Eq, Structural)]
pub enum WriteOrigin {
    Ui,
    HostAutomation,
    Internal,
}

/// An amplitude forced into the storable range.
pub open spec fn clamp_amp(v: i64) -> i64 {
    if v < MIN_AMP_MICRO {
        MIN_AMP_MICRO
    } else if v > MAX_AMP_MICRO {
        MAX_AMP_MICRO
    } else {
        v
    }
}

/// The ramp length in samples for a sample rate: the samples that cover
/// forty milliseconds.
pub open spec fn spec_ramp_samples(sample_rate: u32) -> int {
    sample_rate * RAMP_MILLIS / 1000
}

/// Linear interpolation from `start` toward `target`, `elapsed` samples
/// into a ramp of `total` samples. Once the ramp has elapsed (and always
/// when no ramp length is configured) the value is the target exactly.
pub open spec fn interp_value(start: i64, target: i64, elapsed: u64, total: u64) -> int {
    if total == 0 || elapsed >= total {
        target as int
    } else if target >= start {
        start + (target - start) * elapsed / (total as int)
    } else {
        start - (start - target) * elapsed / (total as int)
    }
}

/// The smoothed gain parameter: the authoritative target value, the
/// smoothing ramp state, and the change-notification flag that every
/// write signals.
pub struct GainParameter {
    start: i64,
    target: i64,
    elapsed: u64,
    total: u64,
    flag: ChangeFlag,
}

impl GainParameter {
    /// The ramp's base: the interpolated value when the current ramp began.
    pub closed spec fn ramp_start(self) -> i64 {
        self.start
    }

    /// The committed target value, read by the UI bridge when it builds a
    /// change notice.
    pub closed spec fn target_micro(self) -> i64 {
        self.target
    }

    /// Samples consumed of the current ramp.
    pub closed spec fn ramp_elapsed(self) -> u64 {
        self.elapsed
    }

    /// Configured ramp length in samples.
    pub closed spec fn ramp_total(self) -> u64 {
        self.total
    }

    /// The change-notification flag.
    pub closed spec fn flag_state(self) -> ChangeFlag {
        self.flag
    }

    /// Well-formedness: both held values lie in the storable range, and the
    /// ramp position lies within its bounded length.
    pub open spec fn wf(self) -> bool {
        &&& MIN_AMP_MICRO <= self.ramp_start() <= MAX_AMP_MICRO
        &&& MIN_AMP_MICRO <= self.target_micro() <= MAX_AMP_MICRO
        &&& self.ramp_elapsed() <= self.ramp_total()
        &&& self.ramp_total() <= MAX_RAMP_SAMPLES
    }

    /// The currently interpolated (smoothed) amplitude.
    pub open spec fn ramp_value(self) -> int {
        interp_value(self.ramp_start(), self.target_micro(), self.ramp_elapsed(), self.ramp_total())
    }

    /// The parameter after a write: the argument clamped into range becomes
    /// the target, the ramp restarts from the currently interpolated value,
    /// and the flag is signalled.
    pub closed spec fn spec_write(self, v: i64) -> GainParameter {
        GainParameter {
            start: self.ramp_value() as i64,
            target: clamp_amp(v),
            elapsed: 0,
            total: self.total,
            flag: marked_flag(),
        }
    }

    /// The parameter after one sample has been consumed of the ramp.
    pub closed spec fn spec_advanced(self) -> GainParameter {
        GainParameter {
            elapsed: if self.elapsed < self.total {
                (self.elapsed + 1) as u64
            } else {
                self.elapsed
            },
            ..self
        }
    }

    /// The parameter after `k` samples have been consumed.
    pub closed spec fn advanced_by(self, k: nat) -> GainParameter
        decreases k,
    {
        if k == 0 {
            self
        } else {
            self.advanced_by((k - 1) as nat).spec_advanced()
        }
    }

    /// The parameter after the UI bridge has polled the flag.
    pub closed spec fn spec_consumed(self) -> GainParameter {
        GainParameter { flag: clean_flag(), ..self }
    }

    /// The parameter after activation at a sample rate: the ramp length is
    /// derived from the rate, and any running ramp is considered settled at
    /// its target.
    pub closed spec fn spec_activated(self, sample_rate: u32) -> GainParameter {
        GainParameter {
            start: self.target,
            target: self.target,
            elapsed: 0,
            total: spec_ramp_samples(sample_rate) as u64,
            flag: self.flag,
        }
    }

    /// A fresh parameter: unity gain, no ramp configured, no change pending.
    pub fn new() -> (r: GainParameter)
        ensures
            r.wf(),
            r.ramp_start() == MAX_AMP_MICRO,
            r.target_micro() == MAX_AMP_MICRO,
            r.ramp_elapsed() == 0,
            r.ramp_total() == 0,
            r.flag_state() == clean_flag(),
            r.ramp_value() == MAX_AMP_MICRO,
    {
        GainParameter {
            start: MAX_AMP_MICRO,
            target: MAX_AMP_MICRO,
            elapsed: 0,
            total: 0,
            flag: ChangeFlag::new(),
        }
    }

    /// Configure the ramp length for a host sample rate; forty milliseconds
    /// of samples. Any running ramp settles at its target.
    pub fn activate(&mut self, sample_rate: u32)
        requires
            old(self).wf(),
        ensures
            *final(self) == old(self).spec_activated(sample_rate),
            final(self).wf(),
            final(self).ramp_total() == spec_ramp_samples(sample_rate),
            final(self).ramp_value() == old(self).target_micro(),
            final(self).target_micro() == old(self).target_micro(),
            final(self).flag_state() == old(self).flag_state(),
    {
        proof {
            lemma_div_is_ordered(
                sample_rate * RAMP_MILLIS,
                0xffff_ffff * RAMP_MILLIS,
                1000,
            );
        }
        let total: u64 = (sample_rate as u64) * RAMP_MILLIS / 1000;
        self.start = self.target;
        self.elapsed = 0;
        self.total = total;
    }

    /// The committed target value: what the UI bridge reports in a change
    /// notice, and what the ramp is heading for.
    pub fn current_value(&self) -> (r: i64)
        ensures
            r == self.target_micro(),
    {
        self.target
    }

    /// The currently interpolated amplitude, without advancing the ramp.
    pub fn smoothed_value(&self) -> (r: i64)
        requires
            self.wf(),
        ensures
            r == self.ramp_value(),
            MIN_AMP_MICRO <= r <= MAX_AMP_MICRO,
    {
        proof {
            lemma_interp_in_range(self.ramp_start(), self.target_micro(), self.ramp_elapsed(), self.ramp_total());
        }
        if self.total == 0 || self.elapsed >= self.total {
            self.target
        } else if self.target >= self.start {
            let d: i64 = self.target - self.start;
            let e: i64 = self.elapsed as i64;
            proof {
                lemma_mul_nonnegative(d as int, e as int);
                lemma_mul_upper_bound(d as int, 999_000, e as int, MAX_RAMP_SAMPLES as int);
            }
            self.start + d * e / (self.total as i64)
        } else {
            let d: i64 = self.start - self.target;
            let e: i64 = self.elapsed as i64;
            proof {
                lemma_mul_nonnegative(d as int, e as int);
                lemma_mul_upper_bound(d as int, 999_000, e as int, MAX_RAMP_SAMPLES as int);
            }
            self.start - d * e / (self.total as i64)
        }
    }

    /// Write a new target: clamp it into range, restart the ramp from the
    /// currently interpolated value, and signal the change flag. Every
    /// writer comes through here, and nothing below depends on `origin`:
    /// out-of-range values are clamped silently, never rejected, and the
    /// flag is signalled unconditionally.
    pub fn write(&mut self, v: i64, origin: WriteOrigin)
        requires
            old(self).wf(),
        ensures
            *final(self) == old(self).spec_write(v),
            final(self).wf(),
            final(self).target_micro() == clamp_amp(v),
            final(self).flag_state().is_dirty(),
    {
        proof {
            lemma_flag_states(old(self).flag_state());
            lemma_interp_in_range(old(self).ramp_start(), old(self).target_micro(), old(self).ramp_elapsed(), old(self).ramp_total());
        }
        let base = self.smoothed_value();
        self.start = base;
        self.target = if v < MIN_AMP_MICRO {
            MIN_AMP_MICRO
        } else if v > MAX_AMP_MICRO {
            MAX_AMP_MICRO
        } else {
            v
        };
        self.elapsed = 0;
        self.flag.mark_dirty();
    }

    /// Advance the ramp by one sample and return the interpolated value:
    /// the audio context calls this once per sample. After the ramp has
    /// elapsed, every call returns the target exactly.
    pub fn advance_one_sample(&mut self) -> (r: i64)
        requires
            old(self).wf(),
        ensures
            *final(self) == old(self).spec_advanced(),
            final(self).wf(),
            r == final(self).ramp_value(),
            MIN_AMP_MICRO <= r <= MAX_AMP_MICRO,
            old(self).ramp_elapsed() + 1 >= old(self).ramp_total() ==> r == old(self).target_micro(),
            final(self).target_micro() == old(self).target_micro(),
            final(self).ramp_total() == old(self).ramp_total(),
            final(self).ramp_start() == old(self).ramp_start(),
            final(self).flag_state() == old(self).flag_state(),
    {
        if self.elapsed < self.total {
            self.elapsed = self.elapsed + 1;
        }
        self.smoothed_value()
    }

    /// The audio block body: advance the ramp once per sample of a block
    /// and hand back the gain for each sample, in order. The embedding
    /// multiplies every channel's sample by the matching gain; the gains
    /// are exactly the values successive single-sample advances would
    /// give.
    pub fn advance_block(&mut self, samples: usize) -> (r: Vec<i64>)
        requires
            old(self).wf(),
        ensures
            final(self).wf(),
            *final(self) == old(self).advanced_by(samples as nat),
            r@.len() == samples,
            forall|k: int|
                0 <= k < samples ==> r@[k] == old(self).advanced_by((k + 1) as nat).ramp_value(),
    {
        let mut r: Vec<i64> = Vec::new();
        let mut i: usize = 0;
        while i < samples
            invariant
                i <= samples,
                self.wf(),
                *self == old(self).advanced_by(i as nat),
                r@.len() == i,
                forall|k: int|
                    0 <= k < i ==> r@[k] == old(self).advanced_by((k + 1) as nat).ramp_value(),
            decreases samples - i,
        {
            let g = self.advance_one_sample();
            r.push(g);
            i = i + 1;
        }
        r
    }

    /// Poll the change flag: report whether any write happened since the
    /// previous poll, and clear the flag.
    pub fn consume_if_dirty(&mut self) -> (r: bool)
        ensures
            r == old(self).flag_state().is_dirty(),
            *final(self) == old(self).spec_consumed(),
            !final(self).flag_state().is_dirty(),
            final(self).target_micro() == old(self).target_micro(),
            final(self).ramp_start() == old(self).ramp_start(),
            final(self).ramp_elapsed() == old(self).ramp_elapsed(),
            final(self).ramp_total() == old(self).ramp_total(),
            old(self).wf() ==> final(self).wf(),
    {
        proof {
            lemma_flag_states(old(self).flag_state());
        }
        self.flag.consume_if_dirty()
    }
}

/// The interpolated value never leaves the storable range while the state
/// is well formed; more precisely it stays between the ramp's endpoints.
pub proof fn lemma_interp_in_range(start: i64, target: i64, elapsed: u64, total: u64)
    requires
        MIN_AMP_MICRO <= start <= MAX_AMP_MICRO,
        MIN_AMP_MICRO <= target <= MAX_AMP_MICRO,
        elapsed <= total,
    ensures
        start <= target ==> start <= interp_value(start, target, elapsed, total) <= target,
        target <= start ==> target <= interp_value(start, target, elapsed, total) <= start,
        MIN_AMP_MICRO <= interp_value(start, target, elapsed, total) <= MAX_AMP_MICRO,
{
    if total == 0 || elapsed >= total {
    } else {
        let d: int = if target >= start {
            target - start
        } else {
            start - target
        };
        lemma_mul_nonnegative(d, elapsed as int);
        lemma_div_pos_is_pos(d * elapsed, total as int);
        lemma_mul_inequality(elapsed as int, total as int, d);
        lemma_mul_is_commutative(d, elapsed as int);
        lemma_mul_is_commutative(d, total as int);
        lemma_div_is_ordered(d * elapsed, d * total, total as int);
        lemma_div_multiples_vanish(d, total as int);
    }
}

/// Interpolation is monotone in the elapsed sample count: non-decreasing
/// toward a higher target, non-increasing toward a lower one.
pub proof fn lemma_interp_monotone(start: i64, target: i64, e1: u64, e2: u64, total: u64)
    requires
        MIN_AMP_MICRO <= start <= MAX_AMP_MICRO,
        MIN_AMP_MICRO <= target <= MAX_AMP_MICRO,
        e1 <= e2,
    ensures
        start <= target ==> interp_value(start, target, e1, total) <= interp_value(start, target, e2, total),
        target <= start ==> interp_value(start, target, e2, total) <= interp_value(start, target, e1, total),
{
    if total == 0 || e1 >= total {
    } else if e2 >= total {
        lemma_interp_in_range(start, target, e1, total);
    } else {
        let d: int = if target >= start {
            target - start
        } else {
            start - target
        };
        lemma_mul_inequality(e1 as int, e2 as int, d);
        lemma_mul_is_commutative(d, e1 as int);
        lemma_mul_is_commutative(d, e2 as int);
        lemma_div_is_ordered(d * e1, d * e2, total as int);
        if target == start {
            lemma_mul_by_zero_is_zero(e1 as int);
            lemma_mul_by_zero_is_zero(e2 as int);
            lemma_div_basics(total as int);
        }
    }
}

impl GainParameter {
    /// A write leaves the parameter well formed: the clamped target is in
    /// range, and the re-based ramp start is the old interpolated value,
    /// which never left the range.
    pub proof fn lemma_write_preserves_wf(self, v: i64)
        requires
            self.wf(),
        ensures
            self.spec_write(v).wf(),
            self.spec_write(v).ramp_total() == self.ramp_total(),
    {
        lemma_interp_in_range(self.ramp_start(), self.target_micro(), self.ramp_elapsed(), self.ramp_total());
    }

    /// Advancing `k` samples moves only the elapsed count, saturating at
    /// the ramp length.
    pub proof fn lemma_advanced_by(self, k: nat)
        requires
            self.wf(),
        ensures
            self.advanced_by(k).wf(),
            self.advanced_by(k).ramp_start() == self.ramp_start(),
            self.advanced_by(k).target_micro() == self.target_micro(),
            self.advanced_by(k).ramp_total() == self.ramp_total(),
            self.advanced_by(k).flag_state() == self.flag_state(),
            self.advanced_by(k).ramp_elapsed() == if self.ramp_elapsed() + k <= self.ramp_total() {
                self.ramp_elapsed() + k
            } else {
                self.ramp_total() as int
            },
        decreases k,
    {
        if k > 0 {
            self.lemma_advanced_by((k - 1) as nat);
        }
    }
}

/// For every target, the smoothed sequence that follows a write reaches the
/// clamped target in at most the configured ramp length, and holds it
/// exactly from then on.
pub proof fn lemma_ramp_reaches_target(p: GainParameter, v: i64, k: nat)
    requires
        p.wf(),
        k >= p.ramp_total(),
    ensures
        p.spec_write(v).advanced_by(k).ramp_value() == clamp_amp(v),
        p.spec_write(v).advanced_by(k).target_micro() == clamp_amp(v),
{
    p.lemma_write_preserves_wf(v);
    p.spec_write(v).lemma_advanced_by(k);
}

/// The smoothed sequence that follows a write is monotone: non-decreasing
/// while ramping up, non-increasing while ramping down. Together with the
/// reach lemma this pins the whole ramp between its endpoints.
pub proof fn lemma_ramp_monotone(p: GainParameter, v: i64, i: nat, j: nat)
    requires
        p.wf(),
        i <= j,
    ensures
        ({
            let q = p.spec_write(v);
            q.ramp_start() <= q.target_micro()
                ==> q.advanced_by(i).ramp_value() <= q.advanced_by(j).ramp_value()
        }),
        ({
            let q = p.spec_write(v);
            q.target_micro() <= q.ramp_start()
                ==> q.advanced_by(j).ramp_value() <= q.advanced_by(i).ramp_value()
        }),
{
    p.lemma_write_preserves_wf(v);
    let q = p.spec_write(v);
    q.lemma_advanced_by(i);
    q.lemma_advanced_by(j);
    lemma_interp_monotone(
        q.ramp_start(),
        q.target_micro(),
        q.advanced_by(i).ramp_elapsed(),
        q.advanced_by(j).ramp_elapsed(),
        q.ramp_total(),
    );
}

/// Two rapid writes between two polls of the flag coalesce into a single
/// consumed notification: the first poll after them reports a change, the
/// poll after that reports none.
pub proof fn lemma_rapid_writes_coalesce(p: GainParameter, a: i64, b: i64)
    ensures
        p.spec_write(a).spec_write(b).flag_state().is_dirty(),
        !p.spec_write(a).spec_write(b).spec_consumed().flag_state().is_dirty(),
{
    lemma_flag_states(p.spec_write(a).spec_write(b).flag_state());
}

/// Of two writes racing for the same parameter, the one that commits last
/// determines the committed value and every smoothed value once the ramp
/// has run: last writer wins, and no other value can be observed after the
/// ramp.
pub proof fn lemma_last_write_wins(p: GainParameter, a: i64, b: i64, k: nat)
    requires
        p.wf(),
        k >= p.ramp_total(),
    ensures
        p.spec_write(a).spec_write(b).target_micro() == clamp_amp(b),
        p.spec_write(a).spec_write(b).advanced_by(k).ramp_value() == clamp_amp(b),
{
    p.lemma_write_preserves_wf(a);
    lemma_ramp_reaches_target(p.spec_write(a), b, k);
}

/// A bracketed write: the transactional path the UI uses, so that the
/// host's automation record sees one atomic change per gesture. The value
/// set within the bracket is committed to the parameter when the bracket
/// ends; of two overlapping brackets, the one that ends last wins.
pub struct GainTransaction {
    pending: Option<i64>,
}

impl GainTransaction {
    /// The value set within the bracket, if any.
    pub closed spec fn pending_value(self) -> Option<i64> {
        self.pending
    }

    /// Open a bracket. Nothing is written yet.
    pub fn begin() -> (r: GainTransaction)
        ensures
            r.pending_value() is None,
    {
        GainTransaction { pending: None }
    }

    /// Stage a value inside the bracket, replacing any earlier staged one.
    pub fn set_value(&mut self, v: i64)
        ensures
            final(self).pending_value() == Some(v),
    {
        self.pending = Some(v);
    }

    /// Close the bracket: commit the staged value, if any, through the
    /// parameter's write path, as the UI writer.
    pub fn end(self, p: &mut GainParameter)
        requires
            old(p).wf(),
        ensures
            final(p).wf(),
            self.pending_value() matches Some(v) ==> *final(p) == old(p).spec_write(v),
            self.pending_value() is None ==> *final(p) == *old(p),
    {
        match self.pending {
            Some(v) => p.write(v, WriteOrigin::Ui),
            None => (),
        }
    }
}

} // verus!
