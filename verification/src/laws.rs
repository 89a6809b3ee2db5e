//! Properties that hold across the operations of the session engine.

use vstd::prelude::*;

use crate::chrome::{lemma_surface_key_injective, surface_key};
use crate::frame::{
    FrameClockTick, FrameScheduleDecision, LayoutEpochState, decision_with_damage, decision_without_damage,
};
use crate::engine::{LayoutTransaction, batch_outcome, layer_surfaces, lemma_placements_keep_surfaces, one_outcome};
use crate::live_session::{LiveInputProofState, spec_observe_composed, spec_verdict};
use crate::live_layout::{LiveWmProposal, ObservedLayout, PersistentLiveLayout, is_live_proposal, observe_all};
use crate::input::{QueuedRoutedInput, motion_key, push_step};
use crate::notification::{
    ChromeNotificationView, MAX_CHROME_NOTIFICATIONS, NotificationChromeCommand, NotificationChromePresenter, NotificationChromeUpdate,
    NotificationRequest, command_step, notification_of, present_step, stage_step,
};
use crate::presentation::{OutputPresentationRetire, OutputPresentationSchedule, OutputPresentationState, retire_step, schedule_step};
use crate::protocol::{
    CommittedSurfaceStateView, DamageFrame, LayerSnapshot, SurfaceId, SurfaceTransaction, TransactionId, layer_views,
};
use crate::session::{SessionLayerSource, cache_after_tick, tick_layers};
use crate::session_config::PersistentXtermSessionConfig;
use crate::surface_set::{lemma_sorted_set_determines_order, strictly_sorted};
use crate::x11::{XByteOrder, named_request, padded_len, u16_bytes, u16_of, zeros};

verus! {

broadcast use vstd::seq_lib::group_seq_properties;

/// Atomic commits, one way: a single transaction that cannot commit makes
/// the whole batch fail, whatever the others are.
pub proof fn law_one_unready_transaction_fails_the_batch(
    states: Seq<CommittedSurfaceStateView>,
    transaction: TransactionId,
    ts: Seq<SurfaceTransaction>,
    i: int,
)
    requires
        0 <= i < ts.len(),
        one_outcome(states, transaction, ts[i]) is Some,
    ensures
        batch_outcome(states, transaction, ts) is Some,
    decreases ts.len(),
{
    if i < ts.len() - 1 {
        law_one_unready_transaction_fails_the_batch(states, transaction, ts.drop_last(), i);
    }
}

/// Atomic commits, the other way: a batch whose every transaction can
/// commit commits as a whole.
pub proof fn law_ready_transactions_commit_together(
    states: Seq<CommittedSurfaceStateView>,
    transaction: TransactionId,
    ts: Seq<SurfaceTransaction>,
)
    requires
        forall|i: int| 0 <= i < ts.len() ==> (#[trigger] one_outcome(states, transaction, ts[i])) is None,
    ensures
        batch_outcome(states, transaction, ts) is None,
    decreases ts.len(),
{
    if ts.len() > 0 {
        let rest = ts.drop_last();
        assert forall|i: int| 0 <= i < rest.len() implies (#[trigger] one_outcome(states, transaction, rest[i])) is None by {
            assert(rest[i] == ts[i]);
        }
        law_ready_transactions_commit_together(states, transaction, rest);
        assert(one_outcome(states, transaction, ts[ts.len() - 1]) is None);
    }
}

/// A tick that restores the last committed layout plans from exactly the
/// layers the previous fresh tick was given.
pub proof fn law_restore_replays_last_fresh_layers(layers: Vec<LayerSnapshot>, cache: Seq<crate::protocol::LayerSnapshotView>)
    ensures
        tick_layers(
            SessionLayerSource::RestoreLastCommitted,
            cache_after_tick(SessionLayerSource::Fresh(layers), cache),
        ) == layer_views(layers@),
{
}

/// At most one frame in flight: while a frame waits for its page flip, no
/// other frame is scheduled and nothing changes.
pub proof fn law_one_frame_in_flight(state: OutputPresentationState, serial: u64, interval: u64)
    requires
        state.in_flight_frame is Some,
    ensures
        schedule_step(state, serial, interval).0 == state,
        schedule_step(state, serial, interval).1 == serial,
        schedule_step(state, serial, interval).2 == (OutputPresentationSchedule::WaitingForRetirement {
            frame_serial: state.in_flight_frame->Some_0,
        }),
{
}

/// A scheduled frame retires with its own serial, and the output is then
/// free to schedule again.
pub proof fn law_scheduled_frame_retires(state: OutputPresentationState, serial: u64, interval: u64)
    requires
        state.in_flight_frame is None,
        state.damage_pending,
    ensures
        ({
            let (scheduled, _, _) = schedule_step(state, serial, interval);
            let (retired, result) = retire_step(scheduled, serial);
            &&& result == OutputPresentationRetire::Retired { frame_serial: serial }
            &&& retired.in_flight_frame is None
            &&& retired.last_retired_frame == Some(serial)
            &&& !retired.damage_pending
        }),
{
}

/// A retire for another frame than the one in flight changes nothing.
pub proof fn law_unexpected_retire_changes_nothing(state: OutputPresentationState, frame_serial: u64)
    requires
        state.in_flight_frame matches Some(expected) && expected != frame_serial,
    ensures
        retire_step(state, frame_serial).0 == state,
{
}

/// Notifications appear only after delivery: whatever command the chrome
/// applies, a notification visible afterwards was visible or staged before,
/// with the same content.
pub proof fn law_only_staged_notifications_become_visible(
    pending: Map<u64, ChromeNotificationView>,
    visible: Map<u64, ChromeNotificationView>,
    command: NotificationChromeCommand,
    k: u64,
)
    requires
        command_step(pending, visible, command).1.contains_key(k),
    ensures
        visible.contains_key(k) || pending.contains_key(k),
        command_step(pending, visible, command).1[k] == if visible.contains_key(k) && !(command matches NotificationChromeCommand::Present { transfer } && transfer.raw == k && pending.contains_key(k)) {
            visible[k]
        } else {
            pending[k]
        },
{
}

/// A staged request, once delivered, is shown exactly as requested.
pub proof fn law_delivered_request_is_shown(
    pending: Map<u64, ChromeNotificationView>,
    visible: Map<u64, ChromeNotificationView>,
    request: NotificationRequest,
)
    requires
        stage_step(pending, visible, request).2 == (NotificationChromeUpdate::Staged { transfer: request.transfer }),
        visible.len() < MAX_CHROME_NOTIFICATIONS || visible.contains_key(request.transfer.raw),
    ensures
        ({
            let (p, v, _) = stage_step(pending, visible, request);
            let (p2, v2, update) = present_step(p, v, request.transfer);
            &&& update == NotificationChromeUpdate::Presented { transfer: request.transfer }
            &&& v2.contains_key(request.transfer.raw)
            &&& v2[request.transfer.raw] == notification_of(request)
            &&& !p2.contains_key(request.transfer.raw)
        }),
{
}

/// The chrome never shows more notifications than its limit.
pub proof fn law_visible_notifications_stay_bounded(
    pending: Map<u64, ChromeNotificationView>,
    visible: Map<u64, ChromeNotificationView>,
    command: NotificationChromeCommand,
)
    requires
        visible.dom().finite(),
        visible.len() <= MAX_CHROME_NOTIFICATIONS,
    ensures
        command_step(pending, visible, command).1.dom().finite(),
        command_step(pending, visible, command).1.len() <= MAX_CHROME_NOTIFICATIONS,
{
    match command {
        NotificationChromeCommand::Present { transfer } => {
            let k = transfer.raw;
            if pending.contains_key(k) && !(visible.len() >= MAX_CHROME_NOTIFICATIONS && !visible.contains_key(k)) {
                if visible.contains_key(k) {
                    assert(visible.insert(k, pending[k]).dom() =~= visible.dom());
                } else {
                    assert(visible.insert(k, pending[k]).dom() =~= visible.dom().insert(k));
                }
            }
        },
        NotificationChromeCommand::Dismiss { transfer } => {
            let k = transfer.raw;
            if pending.contains_key(k) || visible.contains_key(k) {
                assert(visible.remove(k).dom() =~= visible.dom().remove(k));
            }
        },
    }
}

/// A presenter within its visible limit stays within it whatever it is
/// asked: staging leaves the visible notifications alone, and a command
/// never shows more than the limit. A new presenter shows none, so every
/// presenter reached by these calls is within the limit.
pub proof fn law_presenter_visible_stays_bounded(
    presenter: NotificationChromePresenter,
    command: NotificationChromeCommand,
    request: NotificationRequest,
)
    requires
        presenter.visible_map().len() <= MAX_CHROME_NOTIFICATIONS,
    ensures
        command_step(presenter.pending_map(), presenter.visible_map(), command).1.len() <= MAX_CHROME_NOTIFICATIONS,
        stage_step(presenter.pending_map(), presenter.visible_map(), request).1 == presenter.visible_map(),
{
    presenter.lemma_maps_finite();
    law_visible_notifications_stay_bounded(presenter.pending_map(), presenter.visible_map(), command);
}

/// Pointer motion coalesces: a second motion toward the same target
/// replaces the first and nothing is flushed, so only the latest stable
/// motion waits for the frame.
pub proof fn law_latest_motion_replaces_earlier(first: QueuedRoutedInput, second: QueuedRoutedInput)
    requires
        motion_key(first) is Some,
        motion_key(second) == motion_key(first),
    ensures
        push_step(push_step(None, first).0, second) == (Some(second), None::<(crate::input::RoutedInputFlushReason, Seq<QueuedRoutedInput>)>),
{
}

/// State-changing input is never held back or reordered: it is flushed at
/// once, right after any motion that was waiting.
pub proof fn law_state_change_flushes_in_order(pending: Option<QueuedRoutedInput>, input: QueuedRoutedInput)
    requires
        motion_key(input) is None,
    ensures
        push_step(pending, input).0 is None,
        push_step(pending, input).1 == Some(
            (
                crate::input::RoutedInputFlushReason::StateChangingInput,
                match pending {
                    Some(p) => seq![p, input],
                    None => seq![input],
                },
            ),
        ),
{
}

/// An X11 request carries its own length: a named request is a whole
/// number of 4-byte units, and its length field reads back that number
/// while it fits in 16 bits.
pub proof fn law_named_request_length_field(order: XByteOrder, opcode: u8, data: u8, name: Seq<u8>)
    requires
        8 + padded_len(name.len() as int) < 0x4_0000,
    ensures
        named_request(order, opcode, data, name).len() % 4 == 0,
        u16_of(order, named_request(order, opcode, data, name).subrange(2, 4)) == named_request(
            order,
            opcode,
            data,
            name,
        ).len() / 4,
{
    let units = ((8 + padded_len(name.len() as int)) / 4) as u16;
    let r = named_request(order, opcode, data, name);
    let pad = zeros(padded_len(name.len() as int) - name.len());
    assert(pad.len() == padded_len(name.len() as int) - name.len());
    assert(r.len() == 8 + padded_len(name.len() as int));
    assert(r.subrange(2, 4) =~= u16_bytes(order, units));
    crate::x11::lemma_x11_integers_round_trip(order, units, 0);
}

/// The window manager owns placement: observing authority transactions
/// never moves or restacks a surface the live layout already has.
pub proof fn law_observation_keeps_placements(
    s: ObservedLayout,
    ts: Seq<SurfaceTransaction>,
    offset: bool,
    k: u64,
)
    requires
        s.layers.contains_key(k),
    ensures
        observe_all(s, ts, offset).layers.contains_key(k),
        observe_all(s, ts, offset).layers[k].geometry == s.layers[k].geometry,
        observe_all(s, ts, offset).layers[k].stack_rank == s.layers[k].stack_rank,
    decreases ts.len(),
{
    if ts.len() > 0 {
        law_observation_keeps_placements(s, ts.drop_last(), offset, k);
    }
}

/// Every surface reported as new had no layer before the batch, and is
/// left for the window manager to place.
pub proof fn law_new_surfaces_await_placement(s: ObservedLayout, ts: Seq<SurfaceTransaction>, offset: bool)
    requires
        s.new_surfaces.len() == 0,
    ensures
        forall|x: SurfaceId| #[trigger]
            observe_all(s, ts, offset).new_surfaces.contains(x) ==> observe_all(s, ts, offset).unmanaged.contains(x)
                && !s.layers.contains_key(surface_key(x)),
    decreases ts.len(),
{
    if ts.len() > 0 {
        let init = ts.drop_last();
        law_new_surfaces_await_placement(s, init, offset);
        let before = observe_all(s, init, offset);
        let after = observe_all(s, ts, offset);
        let t = ts.last();
        assert forall|x: SurfaceId| #[trigger] after.new_surfaces.contains(x) implies after.unmanaged.contains(x)
            && !s.layers.contains_key(surface_key(x)) by {
            if before.new_surfaces.contains(x) {
                assert(before.unmanaged.contains(x));
            } else {
                assert(x == t.surface);
                assert(!before.layers.contains_key(surface_key(x)));
                if s.layers.contains_key(surface_key(x)) {
                    law_observation_keeps_placements(s, init, offset, surface_key(x));
                }
            }
        }
    }
}

/// A window-manager layout the live session accepts neither adds nor drops
/// surfaces: the proposed layers are the live surfaces, in their order.
pub proof fn law_live_proposal_keeps_surfaces(
    layout: PersistentLiveLayout,
    t: LayoutTransaction,
    p: LiveWmProposal,
)
    requires
        layout.wf(),
        is_live_proposal(layout.ordered(), layout.layer_map(), t, p),
    ensures
        layer_surfaces(layer_views(p.layers@)) == layout.surfaces(),
{
    lemma_placements_keep_surfaces(layout.ordered(), t.render_positions@);
    assert forall|i: int| 0 <= i < layout.surfaces().len() implies #[trigger] layer_surfaces(layout.ordered())[i]
        == layout.surfaces()[i] by {
        let s = layout.surfaces()[i];
        assert(layout.surfaces().contains(s));
        let l = layout.layer_map()[surface_key(s)];
        lemma_surface_key_injective(l.surface, s);
    }
    assert(layer_surfaces(layout.ordered()) =~= layout.surfaces());
}

/// No new geometry before its pixels: a frame renders only when no layout
/// epoch waits on a surface any more, and a tick without damage never
/// renders.
pub proof fn law_waiting_epoch_holds_the_frame(
    tick: FrameClockTick,
    damage: Option<DamageFrame>,
    before: Option<LayoutEpochState>,
    after: Option<LayoutEpochState>,
    decision: FrameScheduleDecision,
)
    requires
        match damage {
            Some(d) => decision_with_damage(tick, d, after, decision),
            None => decision_without_damage(before, decision),
        },
    ensures
        decision is Render ==> damage is Some && match after {
            Some(e) => e.spec_complete(),
            None => true,
        },
{
}

/// An input proof passes only on changed pixels: a session that asked for
/// an input proof succeeds only once composed pixels changed after the
/// input, and a pointer proof also needs routed pointer input and its own
/// change.
pub proof fn law_input_proof_needs_pixel_change(
    config: PersistentXtermSessionConfig,
    state: LiveInputProofState,
    composed: bool,
    proof_complete: bool,
    pointer_routed: usize,
    wm_committed: Option<usize>,
)
    requires
        spec_verdict(config, state, composed, proof_complete, pointer_routed, wm_committed) is Ok,
    ensures
        composed,
        config.inject_text is Some || config.expect_physical_text is Some ==> state.input_pixel_change,
        config.expect_physical_text is Some ==> proof_complete && state.completion_reported,
        config.expect_physical_pointer ==> state.pointer_pixel_change && pointer_routed > 0,
{
}

/// A pixel change is a frame that differs from the baseline taken before
/// the input: a frame observed without a baseline, or equal to it, never
/// counts as a change.
pub proof fn law_pixel_change_differs_from_baseline(
    config: PersistentXtermSessionConfig,
    state: LiveInputProofState,
    checksum: u64,
    keys_routed: usize,
    pointer_routed: usize,
)
    requires
        !state.input_pixel_change,
        !state.pointer_pixel_change,
    ensures
        ({
            let after = spec_observe_composed(config, state, checksum, keys_routed, pointer_routed);
            &&& after.input_pixel_change ==> (state.injection_checksum matches Some(b) && b.frame != checksum)
            &&& after.pointer_pixel_change ==> (state.pointer_checksum matches Some(b) && b != checksum
                && pointer_routed > 0)
        }),
{
}

/// A layout epoch lists its pending surfaces in one order: two epochs that
/// wait on the same surfaces list them identically, in increasing order.
pub proof fn law_epoch_pending_list_is_its_set(a: LayoutEpochState, b: LayoutEpochState)
    requires
        a.wf(),
        b.wf(),
        a.pending().to_set() == b.pending().to_set(),
    ensures
        a.pending() == b.pending(),
        strictly_sorted(a.pending()),
{
    lemma_sorted_set_determines_order(a.pending(), b.pending());
}

} // verus!
