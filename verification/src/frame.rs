//! Frame timing: the deterministic frame clock, layout epochs that hold a
//! frame back until every resized surface has produced matching pixels, the
//! damage-driven frame scheduler, and the page-flip hold that stages an authority
//! batch until the next page flip.

use vstd::prelude::*;

use crate::protocol::{
    DamageFrame, LayerSnapshot, OutputId, ResizeSyncCapability, SurfaceId,
    SurfaceTransactionReadiness,
};
use crate::num::{saturating_add_u64, saturating_mul_u64, saturating_sub_u64};
use crate::surface_set::{sorted_contains, sorted_insert, sorted_remove, strictly_sorted};

verus! {

broadcast use vstd::seq_lib::group_seq_properties;

/// One frame the clock asks for on one output.
#[derive(Clone, Copy, Debug, PartialEq, Eq, Structural)]
pub struct FrameClockTick {
    pub output: OutputId,
    pub frame_serial: u64,
    pub target_msec: u64,
}

/// A source of frame ticks; an implementation picks the tick it hands out
/// for the output it is asked about.
pub trait FrameClock {
    fn next_frame(&mut self, output: OutputId) -> FrameClockTick;
}

/// A frame clock that hands out consecutive serials at a fixed interval.
#[derive(Clone, Copy, Debug, PartialEq, Eq, Structural)]
pub struct DeterministicFrameClock {
    next_serial: u64,
    frame_interval_msec: u64,
}

impl DeterministicFrameClock {
    /// The serial the next tick will carry.
    pub closed spec fn serial(self) -> u64 {
        self.next_serial
    }

    /// The time between two ticks, in milliseconds.
    pub closed spec fn interval(self) -> u64 {
        self.frame_interval_msec
    }

    pub fn new(start_serial: u64, frame_interval_msec: u64) -> (clock: DeterministicFrameClock)
        ensures
            clock.serial() == start_serial,
            clock.interval() == frame_interval_msec,
    {
        DeterministicFrameClock { next_serial: start_serial, frame_interval_msec }
    }

    pub fn next_serial(&self) -> (serial: u64)
        ensures
            serial == self.serial(),
    {
        self.next_serial
    }

    pub fn frame_interval_msec(&self) -> (interval: u64)
        ensures
            interval == self.interval(),
    {
        self.frame_interval_msec
    }
}

impl FrameClock for DeterministicFrameClock {
    /// The current serial, timed at serial times interval (saturating); the
    /// serial then advances by one (saturating).
    fn next_frame(&mut self, output: OutputId) -> (tick: FrameClockTick)
        ensures
            tick.output == output,
            tick.frame_serial == old(self).serial(),
            tick.target_msec == saturating_mul_u64(old(self).serial(), old(self).interval()),
            final(self).serial() == saturating_add_u64(old(self).serial(), 1),
            final(self).interval() == old(self).interval(),
    {
        let frame_serial = self.next_serial;
        self.next_serial = self.next_serial.saturating_add(1);
        let target_msec = match frame_serial.checked_mul(self.frame_interval_msec) {
            Some(product) => product,
            None => u64::MAX,
        };
        FrameClockTick { output, frame_serial, target_msec }
    }
}

/// The clock that starts at serial 1 with a 16 ms interval.
impl Default for DeterministicFrameClock {
    fn default() -> (clock: DeterministicFrameClock)
        ensures
            clock.serial() == 1,
            clock.interval() == 16,
    {
        Self::new(1, 16)
    }
}

/// The surfaces of `input` that are valid, as a set.
pub open spec fn valid_surfaces(input: Seq<SurfaceId>) -> Set<SurfaceId> {
    input.to_set().filter(|s: SurfaceId| s.spec_valid())
}

/// The resized surfaces a layout epoch still waits on, and its deadline.
#[derive(Clone, Debug, PartialEq, Eq)]
pub struct LayoutEpochState {
    pub epoch: u64,
    started_msec: u64,
    timeout_msec: u32,
    pending_surfaces: Vec<SurfaceId>,
}

impl LayoutEpochState {
    /// The surfaces the epoch still waits for, in increasing order.
    pub closed spec fn pending(self) -> Seq<SurfaceId> {
        self.pending_surfaces@
    }

    pub closed spec fn spec_epoch(self) -> u64 {
        self.epoch
    }

    pub closed spec fn started(self) -> u64 {
        self.started_msec
    }

    pub closed spec fn timeout(self) -> u32 {
        self.timeout_msec
    }

    /// The pending surfaces are valid and strictly increasing.
    pub open spec fn wf(self) -> bool {
        &&& strictly_sorted(self.pending())
        &&& forall|i: int| 0 <= i < self.pending().len() ==> (#[trigger] self.pending()[i]).spec_valid()
    }

    pub open spec fn spec_complete(self) -> bool {
        self.pending().len() == 0
    }

    pub open spec fn spec_elapsed(self, now_msec: u64) -> u64 {
        saturating_sub_u64(now_msec, self.started())
    }

    pub open spec fn spec_timed_out(self, now_msec: u64) -> bool {
        !self.spec_complete() && self.spec_elapsed(now_msec) >= self.timeout()
    }

    /// An epoch that starts at time zero with a 300 ms deadline.
    pub fn new(epoch: u64, pending_surfaces: &[SurfaceId]) -> (state: LayoutEpochState)
        ensures
            state.wf(),
            state.spec_epoch() == epoch,
            state.started() == 0,
            state.timeout() == 300,
            state.pending().to_set() == valid_surfaces(pending_surfaces@),
    {
        Self::with_timing(epoch, pending_surfaces, 0, 300)
    }

    /// An epoch waiting on the valid surfaces of `pending_surfaces`.
    pub fn with_timing(
        epoch: u64,
        pending_surfaces: &[SurfaceId],
        started_msec: u64,
        timeout_msec: u32,
    ) -> (state: LayoutEpochState)
        ensures
            state.wf(),
            state.spec_epoch() == epoch,
            state.started() == started_msec,
            state.timeout() == timeout_msec,
            state.pending().to_set() == valid_surfaces(pending_surfaces@),
    {
        let mut pending: Vec<SurfaceId> = Vec::new();
        let mut i: usize = 0;
        while i < pending_surfaces.len()
            invariant
                i <= pending_surfaces@.len(),
                strictly_sorted(pending@),
                pending@.to_set() == valid_surfaces(pending_surfaces@.subrange(0, i as int)),
            decreases pending_surfaces@.len() - i,
        {
            let surface = pending_surfaces[i];
            let ghost prefix = pending_surfaces@.subrange(0, i as int);
            let ghost next = pending_surfaces@.subrange(0, i + 1);
            assert(next =~= prefix.push(surface));
            if surface.is_valid() {
                sorted_insert(&mut pending, surface);
                assert(valid_surfaces(next) =~= valid_surfaces(prefix).insert(surface));
            } else {
                assert(valid_surfaces(next) =~= valid_surfaces(prefix));
            }
            i = i + 1;
        }
        assert(pending_surfaces@.subrange(0, pending_surfaces@.len() as int) =~= pending_surfaces@);
        assert forall|k: int| 0 <= k < pending@.len() implies (#[trigger] pending@[k]).spec_valid() by {
            assert(pending@.to_set().contains(pending@[k]));
        }
        LayoutEpochState { epoch, started_msec, timeout_msec, pending_surfaces: pending }
    }

    /// Damage from a surface means its pixels arrived: it is no longer pending.
    pub fn observe_damage(&mut self, damage: &DamageFrame)
        requires
            old(self).wf(),
        ensures
            final(self).wf(),
            final(self).spec_epoch() == old(self).spec_epoch(),
            final(self).started() == old(self).started(),
            final(self).timeout() == old(self).timeout(),
            final(self).pending().to_set() == old(self).pending().to_set().difference(
                damage.affected_surfaces@.to_set(),
            ),
    {
        let mut i: usize = 0;
        while i < damage.affected_surfaces.len()
            invariant
                self.wf(),
                self.spec_epoch() == old(self).spec_epoch(),
                self.started() == old(self).started(),
                self.timeout() == old(self).timeout(),
                i <= damage.affected_surfaces@.len(),
                self.pending().to_set() == old(self).pending().to_set().difference(
                    damage.affected_surfaces@.subrange(0, i as int).to_set(),
                ),
            decreases damage.affected_surfaces@.len() - i,
        {
            let surface = damage.affected_surfaces[i];
            let ghost before = self.pending_surfaces@;
            sorted_remove(&mut self.pending_surfaces, surface);
            assert forall|k: int| 0 <= k < self.pending_surfaces@.len() implies (
            #[trigger] self.pending_surfaces@[k]).spec_valid() by {
                assert(self.pending_surfaces@.contains(self.pending_surfaces@[k]));
            }
            assert(damage.affected_surfaces@.subrange(0, i + 1) =~= damage.affected_surfaces@.subrange(
                0,
                i as int,
            ).push(surface));
            assert(self.pending().to_set() =~= old(self).pending().to_set().difference(
                damage.affected_surfaces@.subrange(0, i + 1).to_set(),
            ));
            i = i + 1;
        }
        assert(damage.affected_surfaces@.subrange(0, damage.affected_surfaces@.len() as int)
            =~= damage.affected_surfaces@);
    }

    pub fn is_complete(&self) -> (complete: bool)
        ensures
            complete == self.spec_complete(),
    {
        self.pending_surfaces.len() == 0
    }

    /// The pending surfaces, in increasing order.
    pub fn pending_surfaces(&self) -> (surfaces: Vec<SurfaceId>)
        ensures
            surfaces@ == self.pending(),
    {
        let surfaces = self.pending_surfaces.clone();
        assert(surfaces@ =~= self.pending_surfaces@);
        surfaces
    }

    /// A surface is pending until its damage arrives; every other surface is ready.
    pub fn readiness_for_surface(&self, surface: SurfaceId) -> (readiness:
        SurfaceTransactionReadiness)
        ensures
            readiness == (if self.pending().contains(surface) {
                SurfaceTransactionReadiness::Pending
            } else {
                SurfaceTransactionReadiness::Ready
            }),
    {
        if sorted_contains(&self.pending_surfaces, surface) {
            SurfaceTransactionReadiness::Pending
        } else {
            SurfaceTransactionReadiness::Ready
        }
    }

    pub fn started_msec(&self) -> (started: u64)
        ensures
            started == self.started(),
    {
        self.started_msec
    }

    pub fn timeout_msec(&self) -> (timeout: u32)
        ensures
            timeout == self.timeout(),
    {
        self.timeout_msec
    }

    pub fn elapsed_msec(&self, now_msec: u64) -> (elapsed: u64)
        ensures
            elapsed == self.spec_elapsed(now_msec),
    {
        now_msec.saturating_sub(self.started_msec)
    }

    /// An incomplete epoch whose deadline has passed.
    pub fn is_timed_out(&self, now_msec: u64) -> (timed_out: bool)
        ensures
            timed_out == self.spec_timed_out(now_msec),
    {
        !self.is_complete() && self.elapsed_msec(now_msec) >= self.timeout_msec as u64
    }

    /// When the deadline has passed, gives up on the pending surfaces and
    /// reports which they were; otherwise changes nothing.
    pub fn expire_if_timed_out(&mut self, now_msec: u64) -> (expired: Option<LayoutEpochTimeout>)
        requires
            old(self).wf(),
        ensures
            final(self).wf(),
            final(self).spec_epoch() == old(self).spec_epoch(),
            final(self).started() == old(self).started(),
            final(self).timeout() == old(self).timeout(),
            match expired {
                Some(timeout) => {
                    &&& old(self).spec_timed_out(now_msec)
                    &&& timeout.epoch == old(self).spec_epoch()
                    &&& timeout.elapsed_msec == old(self).spec_elapsed(now_msec)
                    &&& timeout.timeout_msec == old(self).timeout()
                    &&& timeout.pending_surfaces@ == old(self).pending()
                    &&& final(self).pending().len() == 0
                },
                None => {
                    &&& !old(self).spec_timed_out(now_msec)
                    &&& final(self).pending() == old(self).pending()
                },
            },
    {
        if !self.is_timed_out(now_msec) {
            return None;
        }
        let pending_surfaces = self.pending_surfaces();
        self.pending_surfaces.clear();
        Some(
            LayoutEpochTimeout {
                epoch: self.epoch,
                elapsed_msec: self.elapsed_msec(now_msec),
                timeout_msec: self.timeout_msec,
                pending_surfaces,
            },
        )
    }
}

/// What a layout epoch was still waiting on when its deadline passed.
#[derive(Clone, Debug, PartialEq, Eq)]
pub struct LayoutEpochTimeout {
    pub epoch: u64,
    pub elapsed_msec: u64,
    pub timeout_msec: u32,
    pub pending_surfaces: Vec<SurfaceId>,
}

/// A measurement of how a resize epoch is going at one instant.
#[derive(Clone, Debug, PartialEq, Eq)]
pub struct ResizeBehaviorSample {
    pub epoch: u64,
    pub elapsed_msec: u64,
    pub timeout_msec: u32,
    pub completed: bool,
    pub timed_out: bool,
    pub pending_surfaces: Vec<SurfaceId>,
}

pub fn measure_resize_behavior(epoch: &LayoutEpochState, now_msec: u64) -> (sample:
    ResizeBehaviorSample)
    ensures
        sample.epoch == epoch.spec_epoch(),
        sample.elapsed_msec == epoch.spec_elapsed(now_msec),
        sample.timeout_msec == epoch.timeout(),
        sample.completed == epoch.spec_complete(),
        sample.timed_out == epoch.spec_timed_out(now_msec),
        sample.pending_surfaces@ == epoch.pending(),
{
    ResizeBehaviorSample {
        epoch: epoch.epoch,
        elapsed_msec: epoch.elapsed_msec(now_msec),
        timeout_msec: epoch.timeout_msec(),
        completed: epoch.is_complete(),
        timed_out: epoch.is_timed_out(now_msec),
        pending_surfaces: epoch.pending_surfaces(),
    }
}

/// The valid surfaces of layers that synchronise resizes explicitly.
pub open spec fn explicit_sync_set(layers: Seq<LayerSnapshot>) -> Set<SurfaceId> {
    Set::new(
        |s: SurfaceId|
            s.spec_valid() && exists|i: int|
                0 <= i < layers.len() && (#[trigger] layers[i]).surface == s && layers[i].resize_sync
                    == ResizeSyncCapability::ExplicitSync,
    )
}

/// The valid surfaces of explicitly synchronising layers, each once, in increasing order.
pub fn explicit_sync_surfaces(layers: &[LayerSnapshot]) -> (surfaces: Vec<SurfaceId>)
    ensures
        strictly_sorted(surfaces@),
        surfaces@.to_set() == explicit_sync_set(layers@),
{
    let mut surfaces: Vec<SurfaceId> = Vec::new();
    let mut i: usize = 0;
    while i < layers.len()
        invariant
            i <= layers@.len(),
            strictly_sorted(surfaces@),
            surfaces@.to_set() == explicit_sync_set(layers@.subrange(0, i as int)),
        decreases layers@.len() - i,
    {
        let ghost prefix = layers@.subrange(0, i as int);
        let ghost next = layers@.subrange(0, i + 1);
        assert(next =~= prefix.push(layers@[i as int]));
        let explicit = match layers[i].resize_sync {
            ResizeSyncCapability::ExplicitSync => true,
            ResizeSyncCapability::ImplicitOnly => false,
        };
        let surface = layers[i].surface;
        if explicit && surface.is_valid() {
            sorted_insert(&mut surfaces, surface);
            assert(explicit_sync_set(next) =~= explicit_sync_set(prefix).insert(surface)) by {
                assert forall|s: SurfaceId| explicit_sync_set(next).contains(s) implies explicit_sync_set(
                    prefix,
                ).insert(surface).contains(s) by {
                    let k = choose|k: int|
                        0 <= k < next.len() && (#[trigger] next[k]).surface == s
                            && next[k].resize_sync == ResizeSyncCapability::ExplicitSync;
                    if k < prefix.len() {
                        assert(prefix[k] == next[k]);
                    }
                }
                assert forall|s: SurfaceId| explicit_sync_set(prefix).insert(surface).contains(
                    s,
                ) implies explicit_sync_set(next).contains(s) by {
                    if s == surface {
                        assert(next[prefix.len() as int].surface == s);
                    } else {
                        let k = choose|k: int|
                            0 <= k < prefix.len() && (#[trigger] prefix[k]).surface == s
                                && prefix[k].resize_sync == ResizeSyncCapability::ExplicitSync;
                        assert(next[k] == prefix[k]);
                    }
                }
            }
        } else {
            assert(explicit_sync_set(next) =~= explicit_sync_set(prefix)) by {
                assert forall|s: SurfaceId| explicit_sync_set(next).contains(s) implies explicit_sync_set(
                    prefix,
                ).contains(s) by {
                    let k = choose|k: int|
                        0 <= k < next.len() && (#[trigger] next[k]).surface == s
                            && next[k].resize_sync == ResizeSyncCapability::ExplicitSync;
                    if k < prefix.len() {
                        assert(prefix[k] == next[k]);
                    }
                }
                assert forall|s: SurfaceId| explicit_sync_set(prefix).contains(s) implies explicit_sync_set(
                    next,
                ).contains(s) by {
                    let k = choose|k: int|
                        0 <= k < prefix.len() && (#[trigger] prefix[k]).surface == s
                            && prefix[k].resize_sync == ResizeSyncCapability::ExplicitSync;
                    assert(next[k] == prefix[k]);
                }
            }
        }
        i = i + 1;
    }
    assert(layers@.subrange(0, layers@.len() as int) =~= layers@);
    surfaces
}

/// An epoch over the explicitly synchronising surfaces, or none when no
/// layer synchronises explicitly.
pub fn layout_epoch_for_explicit_sync(
    epoch: u64,
    started_msec: u64,
    timeout_msec: u32,
    layers: &[LayerSnapshot],
) -> (state: Option<LayoutEpochState>)
    ensures
        match state {
            None => explicit_sync_set(layers@).is_empty(),
            Some(state) => {
                &&& state.wf()
                &&& state.spec_epoch() == epoch
                &&& state.started() == started_msec
                &&& state.timeout() == timeout_msec
                &&& state.pending().to_set() == explicit_sync_set(layers@)
                &&& !explicit_sync_set(layers@).is_empty()
            },
        },
{
    let surfaces = explicit_sync_surfaces(layers);
    if surfaces.len() == 0 {
        assert(surfaces@.to_set() =~= Set::<SurfaceId>::empty());
        return None;
    }
    assert(surfaces@.to_set().contains(surfaces@[0]));
    let state = LayoutEpochState::with_timing(epoch, surfaces.as_slice(), started_msec, timeout_msec);
    assert(valid_surfaces(surfaces@) =~= surfaces@.to_set());
    Some(state)
}

/// Without an epoch every surface is ready; within one, the epoch decides.
pub fn surface_transaction_readiness_for_epoch(
    surface: SurfaceId,
    layout_epoch: Option<&LayoutEpochState>,
) -> (readiness: SurfaceTransactionReadiness)
    ensures
        readiness == match layout_epoch {
            Some(epoch) => if epoch.pending().contains(surface) {
                SurfaceTransactionReadiness::Pending
            } else {
                SurfaceTransactionReadiness::Ready
            },
            None => SurfaceTransactionReadiness::Ready,
        },
{
    match layout_epoch {
        Some(epoch) => epoch.readiness_for_surface(surface),
        None => SurfaceTransactionReadiness::Ready,
    }
}

/// What the frame scheduler decided for one tick.
#[derive(Clone, Debug, PartialEq, Eq)]
pub enum FrameScheduleDecision {
    WaitForDamage,
    WaitForLayoutEpoch { epoch: u64, pending_surfaces: Vec<SurfaceId> },
    Render {
        output: OutputId,
        frame_serial: u64,
        damage: DamageFrame,
        completed_epoch: Option<u64>,
    },
}

/// The decision when the tick's output brought no damage.
pub open spec fn decision_without_damage(
    epoch: Option<LayoutEpochState>,
    decision: FrameScheduleDecision,
) -> bool {
    match epoch {
        Some(e) => if !e.spec_complete() {
            decision matches FrameScheduleDecision::WaitForLayoutEpoch { epoch: n, pending_surfaces }
                && n == e.spec_epoch() && pending_surfaces@ == e.pending()
        } else {
            decision == FrameScheduleDecision::WaitForDamage
        },
        None => decision == FrameScheduleDecision::WaitForDamage,
    }
}

/// The decision once damage for the tick's output has settled the epoch
/// (`after` is the epoch with the damaged surfaces no longer pending).
pub open spec fn decision_with_damage(
    tick: FrameClockTick,
    damage: DamageFrame,
    after: Option<LayoutEpochState>,
    decision: FrameScheduleDecision,
) -> bool {
    match after {
        Some(e) => if !e.spec_complete() {
            decision matches FrameScheduleDecision::WaitForLayoutEpoch { epoch: n, pending_surfaces }
                && n == e.spec_epoch() && pending_surfaces@ == e.pending()
        } else {
            decision == (FrameScheduleDecision::Render {
                output: tick.output,
                frame_serial: tick.frame_serial,
                damage,
                completed_epoch: Some(e.spec_epoch()),
            })
        },
        None => if damage.damage.spec_empty() && damage.affected_surfaces@.len() == 0 {
            decision == FrameScheduleDecision::WaitForDamage
        } else {
            decision == (FrameScheduleDecision::Render {
                output: tick.output,
                frame_serial: tick.frame_serial,
                damage,
                completed_epoch: None,
            })
        },
    }
}

/// Decides whether a tick renders. Without damage nothing renders, and an
/// incomplete epoch is reported. Damage for another output waits. Damage for
/// the tick's output first settles the epoch's surfaces; an epoch that still
/// waits holds the frame back, so no new geometry is presented before its
/// pixels. Otherwise the frame renders if there is damage, an affected
/// surface, or an epoch that just completed.
pub fn schedule_frame_from_damage(
    tick: FrameClockTick,
    damage: Option<DamageFrame>,
    layout_epoch: &mut Option<LayoutEpochState>,
) -> (decision: FrameScheduleDecision)
    requires
        match *old(layout_epoch) {
            Some(e) => e.wf(),
            None => true,
        },
    ensures
        match (*old(layout_epoch), *final(layout_epoch)) {
            (Some(before), Some(after)) => {
                &&& after.wf()
                &&& after.spec_epoch() == before.spec_epoch()
                &&& after.started() == before.started()
                &&& after.timeout() == before.timeout()
            },
            (None, None) => true,
            _ => false,
        },
        match damage {
            Some(d) if d.output == tick.output => {
                &&& decision_with_damage(tick, d, *final(layout_epoch), decision)
                &&& match (*old(layout_epoch), *final(layout_epoch)) {
                    (Some(before), Some(after)) => after.pending().to_set()
                        == before.pending().to_set().difference(d.affected_surfaces@.to_set()),
                    _ => true,
                }
            },
            Some(d) => {
                &&& decision == FrameScheduleDecision::WaitForDamage
                &&& *final(layout_epoch) == *old(layout_epoch)
            },
            None => {
                &&& decision_without_damage(*old(layout_epoch), decision)
                &&& *final(layout_epoch) == *old(layout_epoch)
            },
        },
{
    let damage = match damage {
        Some(damage) => damage,
        None => {
            return match layout_epoch {
                Some(epoch) => {
                    if !epoch.is_complete() {
                        FrameScheduleDecision::WaitForLayoutEpoch {
                            epoch: epoch.epoch,
                            pending_surfaces: epoch.pending_surfaces(),
                        }
                    } else {
                        FrameScheduleDecision::WaitForDamage
                    }
                },
                None => FrameScheduleDecision::WaitForDamage,
            };
        },
    };
    if damage.output.raw != tick.output.raw {
        return FrameScheduleDecision::WaitForDamage;
    }
    let mut completed_epoch: Option<u64> = None;
    match layout_epoch {
        Some(epoch) => {
            epoch.observe_damage(&damage);
            if epoch.is_complete() {
                completed_epoch = Some(epoch.epoch);
            } else {
                return FrameScheduleDecision::WaitForLayoutEpoch {
                    epoch: epoch.epoch,
                    pending_surfaces: epoch.pending_surfaces(),
                };
            }
        },
        None => {},
    }
    if completed_epoch.is_none() && damage.damage.is_empty() && damage.affected_surfaces.len() == 0 {
        return FrameScheduleDecision::WaitForDamage;
    }
    FrameScheduleDecision::Render {
        output: tick.output,
        frame_serial: tick.frame_serial,
        damage,
        completed_epoch,
    }
}

} // verus!
