//! The capture session: a single-slot recorder state machine, the hard
//! recording-duration cap, and the per-callback processing step (downmix,
//! level accumulation, cap check). The hardware stream, the WAV sink and the
//! clock live outside; they hand this module plain samples and elapsed time.

use vstd::prelude::*;
use crate::audio::{downmix, downmix_spec};
use crate::meter::{LevelMeter, sum_squares, ema_next, window_level_spec};

verus! {

/// Default hard cap on a recording: 300 seconds.
pub const MAX_RECORDING_DURATION_MS: u64 = 300_000;

/// Level updates are throttled to about 30 Hz: one emission window every
/// 33 milliseconds, however many callbacks arrive in between.
pub const LEVEL_EMIT_INTERVAL_MS: u64 = 33;

/// The duration cap: set once per session, fires exactly once.
pub struct DurationCap {
    /// Recording length in milliseconds after which the cap fires.
    pub limit_ms: u64,
    /// Whether the cap has fired this session.
    pub fired: bool,
}

/// One observation of the elapsed time: the new cap state and whether the
/// cap fires now (a false-to-true transition).
pub open spec fn cap_step(c: DurationCap, elapsed_ms: u64) -> (DurationCap, bool) {
    (
        DurationCap { limit_ms: c.limit_ms, fired: c.fired || elapsed_ms >= c.limit_ms },
        !c.fired && elapsed_ms >= c.limit_ms,
    )
}

impl DurationCap {
    pub fn new(limit_ms: u64) -> (c: DurationCap)
        ensures
            c.limit_ms == limit_ms,
            !c.fired,
    {
        DurationCap { limit_ms, fired: false }
    }

    /// Observe the elapsed time; returns true exactly when the limit is
    /// first crossed.
    pub fn note_elapsed(&mut self, elapsed_ms: u64) -> (fire: bool)
        ensures
            (*final(self), fire) == cap_step(*old(self), elapsed_ms),
    {
        if !self.fired && elapsed_ms >= self.limit_ms {
            self.fired = true;
            true
        } else {
            if elapsed_ms >= self.limit_ms {
                self.fired = true;
            }
            false
        }
    }
}

/// The cap fires at most once per session: once an observation has fired,
/// no later observation fires again, however many follow.
pub proof fn lemma_cap_fires_at_most_once(c: DurationCap, e1: u64, e2: u64)
    ensures
        cap_step(c, e1).1 ==> !cap_step(cap_step(c, e1).0, e2).1,
{
}

/// The cap fires on the first observation at or past the limit.
pub proof fn lemma_cap_fires_on_first_crossing(c: DurationCap, e: u64)
    requires
        !c.fired,
        e >= c.limit_ms,
    ensures
        cap_step(c, e).1,
{
}

/// Recorder lifecycle: `Idle` until a session starts, `Recording` while the
/// hardware stream runs, `Limited` once the duration cap has fired.
#[derive(PartialEq, Eq, Structural, Clone, Copy, Debug)]
pub enum CapturePhase {
    Idle,
    Recording,
    Limited,
}

/// What one capture callback hands back to the caller: the mono samples to
/// write to the sink, and whether the duration cap fired just now.
pub struct CallbackOutput {
    pub mono: Vec<i16>,
    pub limit_fired: bool,
}

/// The verified core of a capture session. At most one session is active at
/// a time: `start` on a non-idle recorder is rejected.
pub struct Recorder {
    pub phase: CapturePhase,
    pub cap: DurationCap,
    pub meter: LevelMeter,
}

impl Recorder {
    pub open spec fn wf(self) -> bool {
        self.meter.wf()
    }

    pub fn new(limit_ms: u64) -> (r: Recorder)
        ensures
            r.wf(),
            r.phase == CapturePhase::Idle,
            r.cap.limit_ms == limit_ms,
            !r.cap.fired,
            r.meter.acc_sum_squares == 0,
            r.meter.acc_count == 0,
            r.meter.ema_level == 0,
    {
        Recorder { phase: CapturePhase::Idle, cap: DurationCap::new(limit_ms), meter: LevelMeter::new() }
    }

    /// Start a session. Rejected (and nothing changes) when one is already
    /// active; otherwise the cap flag is reset and the meter cleared.
    pub fn start(&mut self) -> (ok: bool)
        requires
            old(self).wf(),
        ensures
            final(self).wf(),
            ok == (old(self).phase == CapturePhase::Idle),
            !ok ==> *final(self) == *old(self),
            ok ==> final(self).phase == CapturePhase::Recording,
            ok ==> !final(self).cap.fired && final(self).cap.limit_ms == old(self).cap.limit_ms,
            ok ==> final(self).meter.acc_sum_squares == 0 && final(self).meter.acc_count == 0
                && final(self).meter.ema_level == 0,
    {
        match self.phase {
            CapturePhase::Idle => {
                self.phase = CapturePhase::Recording;
                self.cap = DurationCap::new(self.cap.limit_ms);
                self.meter = LevelMeter::new();
                true
            },
            _ => false,
        }
    }

    /// One hardware callback: downmix the interleaved buffer to mono,
    /// accumulate its energy for the level meter, and check the elapsed time
    /// against the duration cap. Never blocks and never allocates beyond the
    /// mono buffer it returns.
    pub fn process_block(&mut self, samples: &Vec<i16>, channels: usize, elapsed_ms: u64) -> (out:
        CallbackOutput)
        requires
            old(self).wf(),
            1 <= channels <= 0xFFFF,
            old(self).meter.acc_count + samples@.len() <= 0xFFFF_FFFF,
        ensures
            final(self).wf(),
            out.mono@ == downmix_spec(samples@, channels as int),
            (final(self).cap, out.limit_fired) == cap_step(old(self).cap, elapsed_ms),
            final(self).meter.acc_sum_squares == old(self).meter.acc_sum_squares + sum_squares(
                out.mono@,
            ),
            final(self).meter.acc_count == old(self).meter.acc_count + out.mono@.len(),
            final(self).meter.ema_level == old(self).meter.ema_level,
            final(self).phase == (if old(self).phase == CapturePhase::Recording && (elapsed_ms
                >= old(self).cap.limit_ms) {
                CapturePhase::Limited
            } else {
                old(self).phase
            }),
    {
        let limit_fired = self.cap.note_elapsed(elapsed_ms);
        if matches!(self.phase, CapturePhase::Recording) && elapsed_ms >= self.cap.limit_ms {
            self.phase = CapturePhase::Limited;
        }
        let mono = downmix(samples, channels);
        proof {
            vstd::arithmetic::div_mod::lemma_div_nonincreasing(
                samples@.len() as int,
                channels as int,
            );
        }
        self.meter.accumulate(&mono);
        CallbackOutput { mono, limit_fired }
    }

    /// Close a level-emission window; returns the level to emit.
    pub fn window_tick(&mut self) -> (level: u16)
        requires
            old(self).wf(),
        ensures
            final(self).wf(),
            level <= crate::meter::LEVEL_FULL_SCALE,
            final(self).phase == old(self).phase,
            final(self).cap == old(self).cap,
            final(self).meter.acc_sum_squares == 0 && final(self).meter.acc_count == 0,
            old(self).meter.acc_count == 0 ==> level == 0 && final(self).meter.ema_level == old(
                self,
            ).meter.ema_level,
            old(self).meter.acc_count > 0 ==> final(self).meter.ema_level == ema_next(
                old(self).meter.ema_level as int,
                window_level_spec(
                    old(self).meter.acc_sum_squares as int,
                    old(self).meter.acc_count as int,
                ),
            ) && level == final(self).meter.ema_level,
    {
        self.meter.window_level()
    }

    /// Stop the session. Safe to call when never started or already
    /// stopped: it always leaves the recorder idle.
    pub fn stop(&mut self)
        requires
            old(self).wf(),
        ensures
            final(self).wf(),
            final(self).phase == CapturePhase::Idle,
            final(self).cap == old(self).cap,
            final(self).meter.acc_sum_squares == 0 && final(self).meter.acc_count == 0
                && final(self).meter.ema_level == 0,
    {
        self.phase = CapturePhase::Idle;
        self.meter = LevelMeter::new();
    }
}

} // verus!
