//! The decisions of a persistent terminal session's input proof: when the
//! loop keeps going, stops or gives up waiting, when the proof input is
//! armed, when composed pixels count as a change, and the verdict at the
//! end. Times are milliseconds since the session started; the caller reads
//! the clock, the composed frames and the proof text and hands the values in.

use vstd::prelude::*;

use crate::num::saturating_sub_u64;
use crate::session_config::PersistentXtermSessionConfig;

verus! {

/// How long the authority must stay quiet before input is armed.
pub const SESSION_INPUT_QUIET_MSEC: u64 = 500;

/// How long an exact physical input sequence may take once armed.
pub const SESSION_PHYSICAL_SEQUENCE_TIMEOUT_MSEC: u64 = 15000;

/// How long pixels may take to change after the proof input.
pub const SESSION_PHYSICAL_PIXEL_TIMEOUT_MSEC: u64 = 5000;

/// What the wait at the top of a loop turn decided.
#[derive(Clone, Copy, Debug, PartialEq, Eq, Structural)]
pub enum LiveLoopGate {
    /// Take another turn.
    Proceed,
    /// The session is done: its runtime or its tick budget is spent.
    Stop,
    /// A wait for the input proof ran out.
    TimedOut(LiveProofWait),
}

/// Which wait of the input proof ran out.
#[derive(Clone, Copy, Debug, PartialEq, Eq, Structural)]
pub enum LiveProofWait {
    KeyboardSequence,
    KeyboardPixels,
    PointerPixels,
}

/// What arming the proof input asks the caller to do.
#[derive(Clone, Copy, Debug, PartialEq, Eq, Structural)]
pub enum LiveProofArming {
    /// Send the configured text through the authority.
    SendText,
    /// Announce that the physical keyboard sequence may start.
    AwaitPhysicalInput,
}

/// Why a finished session failed its proof.
#[derive(Clone, Copy, Debug, PartialEq, Eq, Structural)]
pub enum LiveSessionError {
    NoComposedPixels,
    InputDidNotChangePixels,
    PhysicalTextIncomplete,
    PointerDidNotChangePixels,
    NoCommittedWmLayout,
}

/// The checksums of a composed frame and of the buffers it was composed from.
#[derive(Clone, Copy, Debug, PartialEq, Eq, Structural)]
pub struct ComposedChecksums {
    pub frame: u64,
    pub buffers: u64,
}

/// The progress of the input proof.
#[derive(Clone, Copy, Debug, PartialEq, Eq, Structural)]
pub struct LiveInputProofState {
    /// When the physical keyboard sequence was armed.
    pub input_ready_at_msec: Option<u64>,
    /// When the physical keyboard sequence was seen complete.
    pub sequence_completed_at_msec: Option<u64>,
    /// Whether the completed physical proof was reported.
    pub completion_reported: bool,
    /// The composed frame and buffer checksums before the proof input.
    pub injection_checksum: Option<ComposedChecksums>,
    pub input_pixel_change: bool,
    /// The composed frame checksum before the pointer proof.
    pub pointer_checksum: Option<u64>,
    pub pointer_phase_started_at_msec: Option<u64>,
    pub pointer_pixel_change: bool,
    pub session_ticks: usize,
}

/// The state of a session that has not armed anything yet.
pub open spec fn spec_initial_proof_state() -> LiveInputProofState {
    LiveInputProofState {
        input_ready_at_msec: None,
        sequence_completed_at_msec: None,
        completion_reported: false,
        injection_checksum: None,
        input_pixel_change: false,
        pointer_checksum: None,
        pointer_phase_started_at_msec: None,
        pointer_pixel_change: false,
        session_ticks: 0,
    }
}

/// At least `limit` milliseconds have passed since `since`.
pub open spec fn spec_waited(now_msec: u64, since: u64, limit: u64) -> bool {
    saturating_sub_u64(now_msec, since) >= limit
}

/// The keyboard sequence was armed and is not complete yet.
pub open spec fn waiting_for_keyboard_sequence(s: LiveInputProofState, sequence_complete: bool) -> bool {
    s.input_ready_at_msec is Some && !sequence_complete
}

/// The keyboard sequence is complete and its pixels have not changed yet.
pub open spec fn waiting_for_keyboard_pixels(s: LiveInputProofState, sequence_complete: bool) -> bool {
    sequence_complete && s.sequence_completed_at_msec is Some && !s.input_pixel_change
}

/// The keyboard proof is done and the pointer proof's pixels are awaited.
pub open spec fn waiting_for_pointer_pixels(
    c: PersistentXtermSessionConfig,
    s: LiveInputProofState,
    sequence_complete: bool,
) -> bool {
    c.expect_physical_pointer && sequence_complete && s.input_pixel_change && !s.pointer_pixel_change
}

/// The state and decision of the wait at the top of a loop turn.
/// `sequence_complete` is whether the physical keyboard sequence is complete,
/// true when none is expected.
pub open spec fn spec_gate(
    c: PersistentXtermSessionConfig,
    s: LiveInputProofState,
    sequence_complete: bool,
    now_msec: u64,
) -> (LiveInputProofState, LiveLoopGate) {
    if c.max_runtime_msec matches Some(limit) && now_msec >= limit {
        (s, LiveLoopGate::Stop)
    } else {
        let pointer_wait = waiting_for_pointer_pixels(c, s, sequence_complete);
        let s1 = if pointer_wait && s.pointer_phase_started_at_msec is None {
            LiveInputProofState { pointer_phase_started_at_msec: Some(now_msec), ..s }
        } else {
            s
        };
        if waiting_for_keyboard_sequence(s1, sequence_complete) {
            if spec_waited(now_msec, s1.input_ready_at_msec->Some_0, SESSION_PHYSICAL_SEQUENCE_TIMEOUT_MSEC) {
                (s1, LiveLoopGate::TimedOut(LiveProofWait::KeyboardSequence))
            } else {
                (s1, LiveLoopGate::Proceed)
            }
        } else if waiting_for_keyboard_pixels(s1, sequence_complete) {
            if spec_waited(now_msec, s1.sequence_completed_at_msec->Some_0, SESSION_PHYSICAL_PIXEL_TIMEOUT_MSEC) {
                (s1, LiveLoopGate::TimedOut(LiveProofWait::KeyboardPixels))
            } else {
                (s1, LiveLoopGate::Proceed)
            }
        } else if pointer_wait {
            if spec_waited(now_msec, s1.pointer_phase_started_at_msec->Some_0, SESSION_PHYSICAL_PIXEL_TIMEOUT_MSEC) {
                (s1, LiveLoopGate::TimedOut(LiveProofWait::PointerPixels))
            } else {
                (s1, LiveLoopGate::Proceed)
            }
        } else if c.max_ticks matches Some(max) && s1.session_ticks >= max {
            (s1, LiveLoopGate::Stop)
        } else {
            (
                LiveInputProofState {
                    session_ticks: if s1.session_ticks == usize::MAX {
                        usize::MAX
                    } else {
                        (s1.session_ticks + 1) as usize
                    },
                    ..s1
                },
                LiveLoopGate::Proceed,
            )
        }
    }
}

/// The state after a composed frame with checksum `checksum`: a change from
/// the baseline counts once input was routed for it.
pub open spec fn spec_observe_composed(
    c: PersistentXtermSessionConfig,
    s: LiveInputProofState,
    checksum: u64,
    keys_routed: usize,
    pointer_routed: usize,
) -> LiveInputProofState {
    let input_change = s.input_pixel_change || (s.injection_checksum matches Some(base) && checksum != base.frame && (
    c.expect_physical_text is None || keys_routed > 0));
    let pointer_change = s.pointer_pixel_change || (s.pointer_checksum matches Some(base) && checksum != base
        && pointer_routed > 0);
    LiveInputProofState { input_pixel_change: input_change, pointer_pixel_change: pointer_change, ..s }
}

/// The authority has been quiet long enough, or the WM's last committed
/// layout has.
pub open spec fn spec_quiet(now_msec: u64, last_authority_update_msec: u64, wm_last_committed_msec: Option<u64>) -> bool {
    spec_waited(now_msec, last_authority_update_msec, SESSION_INPUT_QUIET_MSEC) || (
    wm_last_committed_msec matches Some(t) && spec_waited(now_msec, t, SESSION_INPUT_QUIET_MSEC))
}

/// The state and request of arming the proof input, once a baseline frame
/// with checksums `baseline` was presented and things are quiet.
pub open spec fn spec_arm_input(
    c: PersistentXtermSessionConfig,
    s: LiveInputProofState,
    baseline: Option<ComposedChecksums>,
    now_msec: u64,
    last_authority_update_msec: u64,
    wm_last_committed_msec: Option<u64>,
) -> (LiveInputProofState, Option<LiveProofArming>) {
    if s.injection_checksum is None && (c.inject_text is Some || c.expect_physical_text is Some) && baseline is Some
        && spec_quiet(now_msec, last_authority_update_msec, wm_last_committed_msec) {
        if c.inject_text is Some {
            (LiveInputProofState { injection_checksum: baseline, ..s }, Some(LiveProofArming::SendText))
        } else {
            (
                LiveInputProofState { injection_checksum: baseline, input_ready_at_msec: Some(now_msec), ..s },
                Some(LiveProofArming::AwaitPhysicalInput),
            )
        }
    } else {
        (s, None)
    }
}

/// The state after arming the pointer proof on the last composed frame's
/// checksum, once the keyboard proof was reported and the authority is quiet.
pub open spec fn spec_arm_pointer(
    c: PersistentXtermSessionConfig,
    s: LiveInputProofState,
    last_checksum: Option<u64>,
    now_msec: u64,
    last_authority_update_msec: u64,
) -> LiveInputProofState {
    if c.expect_physical_pointer && s.completion_reported && s.input_pixel_change && s.pointer_checksum is None
        && last_checksum is Some && spec_waited(now_msec, last_authority_update_msec, SESSION_INPUT_QUIET_MSEC) {
        LiveInputProofState { pointer_checksum: last_checksum, ..s }
    } else {
        s
    }
}

/// The loop may end early: every proof asked for has changed pixels.
pub open spec fn spec_proof_done(c: PersistentXtermSessionConfig, s: LiveInputProofState) -> bool {
    c.exit_after_input_proof && s.input_pixel_change && (c.expect_physical_text is None || s.completion_reported)
        && (!c.expect_physical_pointer || s.pointer_pixel_change)
}

/// The verdict of a finished session. `proof_complete` is whether the
/// physical keyboard sequence completed; `wm_committed` counts the WM
/// layouts committed, when a WM runs.
pub open spec fn spec_verdict(
    c: PersistentXtermSessionConfig,
    s: LiveInputProofState,
    composed: bool,
    proof_complete: bool,
    pointer_routed: usize,
    wm_committed: Option<usize>,
) -> Result<(), LiveSessionError> {
    if !composed {
        Err(LiveSessionError::NoComposedPixels)
    } else if (c.inject_text is Some || c.expect_physical_text is Some) && !s.input_pixel_change {
        Err(LiveSessionError::InputDidNotChangePixels)
    } else if c.expect_physical_text is Some && (!proof_complete || !s.completion_reported) {
        Err(LiveSessionError::PhysicalTextIncomplete)
    } else if c.expect_physical_pointer && (!s.pointer_pixel_change || pointer_routed == 0) {
        Err(LiveSessionError::PointerDidNotChangePixels)
    } else if wm_committed == Some(0usize) {
        Err(LiveSessionError::NoCommittedWmLayout)
    } else {
        Ok(())
    }
}

fn waited(now_msec: u64, since: u64, limit: u64) -> (done: bool)
    ensures
        done == spec_waited(now_msec, since, limit),
{
    now_msec.saturating_sub(since) >= limit
}

impl LiveInputProofState {
    pub fn new() -> (state: LiveInputProofState)
        ensures
            state == spec_initial_proof_state(),
    {
        LiveInputProofState {
            input_ready_at_msec: None,
            sequence_completed_at_msec: None,
            completion_reported: false,
            injection_checksum: None,
            input_pixel_change: false,
            pointer_checksum: None,
            pointer_phase_started_at_msec: None,
            pointer_pixel_change: false,
            session_ticks: 0,
        }
    }

    /// The wait at the top of a loop turn: stops at the runtime limit, gives
    /// up on a proof wait that ran out, stops at the tick budget, and
    /// otherwise counts the turn.
    pub fn gate(&mut self, config: &PersistentXtermSessionConfig, sequence_complete: bool, now_msec: u64) -> (gate:
        LiveLoopGate)
        ensures
            (*final(self), gate) == spec_gate(*config, *old(self), sequence_complete, now_msec),
    {
        if let Some(limit) = config.max_runtime_msec {
            if now_msec >= limit {
                return LiveLoopGate::Stop;
            }
        }
        let pointer_wait = config.expect_physical_pointer && sequence_complete && self.input_pixel_change
            && !self.pointer_pixel_change;
        if pointer_wait && self.pointer_phase_started_at_msec.is_none() {
            self.pointer_phase_started_at_msec = Some(now_msec);
        }
        let keyboard_sequence_wait = self.input_ready_at_msec.is_some() && !sequence_complete;
        let keyboard_pixel_wait = sequence_complete && self.sequence_completed_at_msec.is_some()
            && !self.input_pixel_change;
        if keyboard_sequence_wait {
            let ready_at = match self.input_ready_at_msec {
                Some(t) => t,
                None => 0,
            };
            if waited(now_msec, ready_at, SESSION_PHYSICAL_SEQUENCE_TIMEOUT_MSEC) {
                LiveLoopGate::TimedOut(LiveProofWait::KeyboardSequence)
            } else {
                LiveLoopGate::Proceed
            }
        } else if keyboard_pixel_wait {
            let completed_at = match self.sequence_completed_at_msec {
                Some(t) => t,
                None => 0,
            };
            if waited(now_msec, completed_at, SESSION_PHYSICAL_PIXEL_TIMEOUT_MSEC) {
                LiveLoopGate::TimedOut(LiveProofWait::KeyboardPixels)
            } else {
                LiveLoopGate::Proceed
            }
        } else if pointer_wait {
            let started_at = match self.pointer_phase_started_at_msec {
                Some(t) => t,
                None => 0,
            };
            if waited(now_msec, started_at, SESSION_PHYSICAL_PIXEL_TIMEOUT_MSEC) {
                LiveLoopGate::TimedOut(LiveProofWait::PointerPixels)
            } else {
                LiveLoopGate::Proceed
            }
        } else {
            if let Some(max) = config.max_ticks {
                if self.session_ticks >= max {
                    return LiveLoopGate::Stop;
                }
            }
            self.session_ticks = self.session_ticks.saturating_add(1);
            LiveLoopGate::Proceed
        }
    }

    /// Records the physical keyboard sequence's completion the first time it
    /// is seen complete.
    pub fn observe_sequence(&mut self, proof_complete: bool, now_msec: u64)
        ensures
            *final(self) == if old(self).sequence_completed_at_msec is None && proof_complete {
                LiveInputProofState { sequence_completed_at_msec: Some(now_msec), ..*old(self) }
            } else {
                *old(self)
            },
    {
        if self.sequence_completed_at_msec.is_none() && proof_complete {
            self.sequence_completed_at_msec = Some(now_msec);
        }
    }

    /// Compares a composed frame with the baselines.
    pub fn observe_composed(
        &mut self,
        config: &PersistentXtermSessionConfig,
        checksum: u64,
        keys_routed: usize,
        pointer_routed: usize,
    )
        ensures
            *final(self) == spec_observe_composed(*config, *old(self), checksum, keys_routed, pointer_routed),
    {
        if let Some(before) = self.injection_checksum {
            if checksum != before.frame && (config.expect_physical_text.is_none() || keys_routed > 0) {
                self.input_pixel_change = true;
            }
        }
        if let Some(before) = self.pointer_checksum {
            if checksum != before && pointer_routed > 0 {
                self.pointer_pixel_change = true;
            }
        }
    }

    /// Whether the completed physical keyboard proof should be reported now;
    /// it is reported once, after its pixels changed.
    pub fn take_completion_report(&mut self, config: &PersistentXtermSessionConfig, proof_complete: bool) -> (report:
        bool)
        ensures
            report == (!old(self).completion_reported && old(self).input_pixel_change
                && config.expect_physical_text is Some && proof_complete),
            *final(self) == if report {
                LiveInputProofState { completion_reported: true, ..*old(self) }
            } else {
                *old(self)
            },
    {
        if !self.completion_reported && self.input_pixel_change && config.expect_physical_text.is_some()
            && proof_complete {
            self.completion_reported = true;
            true
        } else {
            false
        }
    }

    /// Arms the proof input on a presented baseline frame once things are
    /// quiet: the configured text is sent, or the physical sequence awaited.
    pub fn arm_input(
        &mut self,
        config: &PersistentXtermSessionConfig,
        baseline: Option<ComposedChecksums>,
        now_msec: u64,
        last_authority_update_msec: u64,
        wm_last_committed_msec: Option<u64>,
    ) -> (arming: Option<LiveProofArming>)
        ensures
            (*final(self), arming) == spec_arm_input(
                *config,
                *old(self),
                baseline,
                now_msec,
                last_authority_update_msec,
                wm_last_committed_msec,
            ),
    {
        let wm_quiet = match wm_last_committed_msec {
            Some(t) => waited(now_msec, t, SESSION_INPUT_QUIET_MSEC),
            None => false,
        };
        let quiet = waited(now_msec, last_authority_update_msec, SESSION_INPUT_QUIET_MSEC) || wm_quiet;
        let requested = config.inject_text.is_some() || config.expect_physical_text.is_some();
        if self.injection_checksum.is_none() && requested && baseline.is_some() && quiet {
            self.injection_checksum = baseline;
            if config.inject_text.is_some() {
                Some(LiveProofArming::SendText)
            } else {
                self.input_ready_at_msec = Some(now_msec);
                Some(LiveProofArming::AwaitPhysicalInput)
            }
        } else {
            None
        }
    }

    /// Arms the pointer proof on the last composed frame; true when it did.
    pub fn arm_pointer(
        &mut self,
        config: &PersistentXtermSessionConfig,
        last_checksum: Option<u64>,
        now_msec: u64,
        last_authority_update_msec: u64,
    ) -> (armed: bool)
        ensures
            *final(self) == spec_arm_pointer(*config, *old(self), last_checksum, now_msec, last_authority_update_msec),
            armed == (final(self).pointer_checksum != old(self).pointer_checksum),
    {
        if config.expect_physical_pointer && self.completion_reported && self.input_pixel_change
            && self.pointer_checksum.is_none() && last_checksum.is_some() && waited(
            now_msec,
            last_authority_update_msec,
            SESSION_INPUT_QUIET_MSEC,
        ) {
            self.pointer_checksum = last_checksum;
            true
        } else {
            false
        }
    }

    /// Whether the loop may end early because every proof is done.
    pub fn proof_done(&self, config: &PersistentXtermSessionConfig) -> (done: bool)
        ensures
            done == spec_proof_done(*config, *self),
    {
        config.exit_after_input_proof && self.input_pixel_change && (config.expect_physical_text.is_none()
            || self.completion_reported) && (!config.expect_physical_pointer || self.pointer_pixel_change)
    }

    /// The verdict of the finished session.
    pub fn verdict(
        &self,
        config: &PersistentXtermSessionConfig,
        composed: bool,
        proof_complete: bool,
        pointer_routed: usize,
        wm_committed: Option<usize>,
    ) -> (verdict: Result<(), LiveSessionError>)
        ensures
            verdict == spec_verdict(*config, *self, composed, proof_complete, pointer_routed, wm_committed),
    {
        if !composed {
            Err(LiveSessionError::NoComposedPixels)
        } else if config.input_proof_requested() && !self.input_pixel_change {
            Err(LiveSessionError::InputDidNotChangePixels)
        } else if config.expect_physical_text.is_some() && (!proof_complete || !self.completion_reported) {
            Err(LiveSessionError::PhysicalTextIncomplete)
        } else if config.expect_physical_pointer && (!self.pointer_pixel_change || pointer_routed == 0) {
            Err(LiveSessionError::PointerDidNotChangePixels)
        } else if wm_committed == Some(0usize) {
            Err(LiveSessionError::NoCommittedWmLayout)
        } else {
            Ok(())
        }
    }
}

/// What the native scanout counted over a session.
#[derive(Clone, Copy, Debug, PartialEq, Eq, Structural)]
pub struct NativeScanoutCounters {
    pub submissions: usize,
    pub retirements: usize,
    pub nonzero_exports: usize,
    pub submit_failures: usize,
    pub retire_failures: usize,
    pub callback_rejected: usize,
    pub callback_queue_saturated: usize,
    pub vsync_overlap_rejections: usize,
    pub page_flip_phase_rejections: usize,
    pub in_flight: bool,
    pub cleanup_pending: bool,
}

/// The scanout submitted, retired and exported pixels, nothing failed or
/// was refused, and nothing is left in flight or to clean up.
pub open spec fn spec_native_scanout_clean(n: NativeScanoutCounters) -> bool {
    n.submissions != 0 && n.retirements != 0 && n.nonzero_exports != 0 && n.submit_failures == 0
        && n.retire_failures == 0 && n.callback_rejected == 0 && n.callback_queue_saturated == 0
        && n.vsync_overlap_rejections == 0 && n.page_flip_phase_rejections == 0 && !n.in_flight
        && !n.cleanup_pending
}

pub fn native_scanout_drained_cleanly(counters: &NativeScanoutCounters) -> (clean: bool)
    ensures
        clean == spec_native_scanout_clean(*counters),
{
    counters.submissions != 0 && counters.retirements != 0 && counters.nonzero_exports != 0
        && counters.submit_failures == 0 && counters.retire_failures == 0 && counters.callback_rejected == 0
        && counters.callback_queue_saturated == 0 && counters.vsync_overlap_rejections == 0
        && counters.page_flip_phase_rejections == 0 && !counters.in_flight && !counters.cleanup_pending
}

} // verus!
