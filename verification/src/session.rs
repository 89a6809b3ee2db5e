//! Session events and ticks: chrome actions and surface removals become
//! commands for the X authority and the window manager, and a session tick
//! plans and replays one frame from fresh layers or from the last layout it
//! committed.

use vstd::prelude::*;

use crate::chrome::{
    ChromeActionDecision, ChromeActionRequest, LayoutNodeSnapshot, spec_validate_chrome_action,
    validate_chrome_action,
};
use crate::engine::{EngineError, HeadlessEngine};
use crate::frame::{FrameClock, FrameClockTick};
use crate::frame_plan::{
    FramePlanRequest, FrameSnapshot, ReplayReport, lemma_planned_commands_replay, planned_frame,
    replayed_frame, surfaces_valid,
};
use crate::protocol::{LayerSnapshot, LayerSnapshotView, OutputId, SurfaceId, TransactionId, WorkspaceId, layer_views};
use crate::wm::{WmRequestKind, WmRequestPacket};

verus! {

/// Something that happened in the session.
#[derive(Clone, Copy, Debug, PartialEq, Eq, Structural)]
pub enum SessionEvent {
    ChromeAction(ChromeActionRequest),
    SurfaceRemoved { transaction: TransactionId, surface: SurfaceId, workspace: WorkspaceId },
}

/// A command the session issues in response.
#[derive(Clone, Debug, PartialEq, Eq)]
pub enum SessionCommand {
    RequestPoliteClose { surface: SurfaceId },
    SendWmRequest(WmRequestPacket),
}

/// The decision on a chrome action, if the event was one, and the commands.
#[derive(Clone, Debug, PartialEq, Eq)]
pub struct SessionUpdate {
    pub chrome_decision: Option<ChromeActionDecision>,
    pub commands: Vec<SessionCommand>,
}

/// The chrome decision and the commands an event brings.
pub open spec fn session_response(event: SessionEvent, nodes: Seq<LayoutNodeSnapshot>) -> (
    Option<ChromeActionDecision>,
    Seq<SessionCommand>,
) {
    match event {
        SessionEvent::ChromeAction(request) => {
            let decision = spec_validate_chrome_action(request, nodes);
            (
                Some(decision),
                match decision {
                    ChromeActionDecision::RequestPoliteClose { surface } => seq![
                        SessionCommand::RequestPoliteClose { surface },
                    ],
                    ChromeActionDecision::Rejected(_) => Seq::<SessionCommand>::empty(),
                },
            )
        },
        SessionEvent::SurfaceRemoved { transaction, surface, workspace } => (
            None,
            seq![
                SessionCommand::SendWmRequest(
                    WmRequestPacket { transaction, kind: WmRequestKind::SurfaceRemoved { surface, workspace } },
                ),
            ],
        ),
    }
}

/// An accepted close asks the client politely; a rejected action issues
/// nothing. The WM hears of a removed surface only after the removal.
pub fn handle_session_event(event: SessionEvent, nodes: &[LayoutNodeSnapshot]) -> (update: SessionUpdate)
    ensures
        (update.chrome_decision, update.commands@) == session_response(event, nodes@),
{
    match event {
        SessionEvent::ChromeAction(request) => {
            let decision = validate_chrome_action(&request, nodes);
            let mut commands: Vec<SessionCommand> = Vec::new();
            match decision {
                ChromeActionDecision::RequestPoliteClose { surface } => {
                    commands.push(SessionCommand::RequestPoliteClose { surface });
                    assert(commands@ =~= seq![SessionCommand::RequestPoliteClose { surface }]);
                },
                ChromeActionDecision::Rejected(_) => {
                    assert(commands@ =~= Seq::<SessionCommand>::empty());
                },
            }
            SessionUpdate { chrome_decision: Some(decision), commands }
        },
        SessionEvent::SurfaceRemoved { transaction, surface, workspace } => {
            let mut commands: Vec<SessionCommand> = Vec::new();
            let request = WmRequestPacket {
                transaction,
                kind: WmRequestKind::SurfaceRemoved { surface, workspace },
            };
            commands.push(SessionCommand::SendWmRequest(request));
            SessionUpdate { chrome_decision: None, commands }
        },
    }
}

/// Where the layers of a session tick come from.
#[derive(Clone, Debug, PartialEq, Eq)]
pub enum SessionLayerSource {
    Fresh(Vec<LayerSnapshot>),
    RestoreLastCommitted,
}

/// One session tick to run.
#[derive(Clone, Debug, PartialEq, Eq)]
pub struct SessionTickRequest {
    pub output: OutputId,
    pub frame_serial: u64,
    pub layers: SessionLayerSource,
}

/// The frame a tick planned, its replay, and whether it came from the
/// last committed layout.
#[derive(Clone, Debug, PartialEq, Eq)]
pub struct SessionTickReport {
    pub frame: FrameSnapshot,
    pub replay: ReplayReport,
    pub restored_last_committed: bool,
}

/// The layers the session last committed, kept to fall back on.
#[derive(Clone, Debug, PartialEq, Eq)]
pub struct LastCommittedLayout {
    layers: Vec<LayerSnapshot>,
}

fn copy_layer_vec(layers: &[LayerSnapshot]) -> (copy: Vec<LayerSnapshot>)
    ensures
        layer_views(copy@) == layer_views(layers@),
{
    let mut copy: Vec<LayerSnapshot> = Vec::new();
    let mut i: usize = 0;
    while i < layers.len()
        invariant
            i <= layers@.len(),
            copy@.len() == i,
            forall|k: int| 0 <= k < i ==> (#[trigger] copy@[k])@ == layers@[k]@,
        decreases layers@.len() - i,
    {
        copy.push(layers[i].copied());
        i = i + 1;
    }
    assert(layer_views(copy@) =~= layer_views(layers@));
    copy
}

impl LastCommittedLayout {
    /// The cached layers.
    pub closed spec fn cached(&self) -> Seq<LayerSnapshotView> {
        layer_views(self.layers@)
    }

    pub fn new(layers: Vec<LayerSnapshot>) -> (cache: LastCommittedLayout)
        ensures
            cache.cached() == layer_views(layers@),
    {
        LastCommittedLayout { layers }
    }

    pub fn layers(&self) -> (layers: &[LayerSnapshot])
        ensures
            layer_views(layers@) == self.cached(),
    {
        self.layers.as_slice()
    }

    /// Remembers `layers` as the last committed layout.
    pub fn replace(&mut self, layers: &[LayerSnapshot])
        ensures
            final(self).cached() == layer_views(layers@),
    {
        self.layers = copy_layer_vec(layers);
    }

    /// Puts the last committed layout into `layers`.
    pub fn restore_into(&self, layers: &mut Vec<LayerSnapshot>)
        ensures
            layer_views(final(layers)@) == self.cached(),
    {
        *layers = copy_layer_vec(self.layers.as_slice());
    }
}

impl Default for LastCommittedLayout {
    fn default() -> (cache: LastCommittedLayout)
        ensures
            cache.cached() == Seq::<LayerSnapshotView>::empty(),
    {
        LastCommittedLayout { layers: Vec::new() }
    }
}

/// The layers a tick plans from.
pub open spec fn tick_layers(source: SessionLayerSource, cache: Seq<LayerSnapshotView>) -> Seq<LayerSnapshotView> {
    match source {
        SessionLayerSource::Fresh(ls) => layer_views(ls@),
        SessionLayerSource::RestoreLastCommitted => cache,
    }
}

/// The cache after a tick: fresh layers are remembered before planning.
pub open spec fn cache_after_tick(source: SessionLayerSource, cache: Seq<LayerSnapshotView>) -> Seq<LayerSnapshotView> {
    match source {
        SessionLayerSource::Fresh(ls) => layer_views(ls@),
        SessionLayerSource::RestoreLastCommitted => cache,
    }
}

/// What a session tick of `engine` on `output` and `frame_serial` gives
/// for `source` and the cached layers: the planned frame and its replay, or
/// the planning error.
pub open spec fn tick_outcome(
    engine: HeadlessEngine,
    output: OutputId,
    frame_serial: u64,
    source: SessionLayerSource,
    cache: Seq<LayerSnapshotView>,
    report: Result<SessionTickReport, EngineError>,
) -> bool {
    let input = tick_layers(source, cache);
    let request = FramePlanRequest { output, frame_serial };
    match report {
        Ok(r) => {
            &&& engine.spec_output_ok(output)
            &&& surfaces_valid(input)
            &&& planned_frame(engine, r.frame, request, input)
            &&& replayed_frame(r.replay, r.frame)
            &&& r.restored_last_committed == (source is RestoreLastCommitted)
        },
        Err(e) => if !engine.spec_output_ok(output) {
            e == EngineError::InvalidOutput
        } else {
            e == EngineError::InvalidSurface && !surfaces_valid(input)
        },
    }
}

impl HeadlessEngine {
    pub fn validate_chrome_action(&self, request: &ChromeActionRequest, nodes: &[LayoutNodeSnapshot]) -> (decision:
        ChromeActionDecision)
        ensures
            decision == spec_validate_chrome_action(*request, nodes@),
    {
        validate_chrome_action(request, nodes)
    }

    pub fn handle_session_event(&self, event: SessionEvent, nodes: &[LayoutNodeSnapshot]) -> (update: SessionUpdate)
        ensures
            (update.chrome_decision, update.commands@) == session_response(event, nodes@),
    {
        handle_session_event(event, nodes)
    }

    /// Runs one tick: fresh layers are remembered as the last committed
    /// layout, or the last committed layout is restored; the frame is then
    /// planned and replayed.
    pub fn run_session_tick(&self, request: SessionTickRequest, last_committed: &mut LastCommittedLayout) -> (report:
        Result<SessionTickReport, EngineError>)
        ensures
            final(last_committed).cached() == cache_after_tick(request.layers, old(last_committed).cached()),
            tick_outcome(
                *self,
                request.output,
                request.frame_serial,
                request.layers,
                old(last_committed).cached(),
                report,
            ),
    {
        let ghost source = request.layers;
        let (layers, restored) = match request.layers {
            SessionLayerSource::Fresh(layers) => {
                last_committed.replace(layers.as_slice());
                (layers, false)
            },
            SessionLayerSource::RestoreLastCommitted => {
                let mut layers: Vec<LayerSnapshot> = Vec::new();
                last_committed.restore_into(&mut layers);
                (layers, true)
            },
        };
        let ghost input = layer_views(layers@);
        let frame = match self.plan_frame(FramePlanRequest { output: request.output, frame_serial: request.frame_serial }, layers) {
            Ok(frame) => frame,
            Err(e) => return Err(e),
        };
        proof {
            let fl = layer_views(frame.layers@);
            let surfaces = crate::engine::layer_surfaces(fl);
            assert forall|i: int| 0 <= i < fl.len() implies surfaces.contains(#[trigger] fl[i].surface) by {
                assert(surfaces[i] == fl[i].surface);
            }
            lemma_planned_commands_replay(request.output, surfaces, fl);
        }
        let replay = match self.replay_frame(&frame) {
            Ok(replay) => replay,
            Err(e) => return Err(e),
        };
        Ok(SessionTickReport { frame, replay, restored_last_committed: restored })
    }

    /// Runs one tick at the output and serial of the tick the clock hands
    /// out when asked about this engine's output.
    pub fn run_clocked_session_tick<C: FrameClock>(
        &self,
        clock: &mut C,
        layers: SessionLayerSource,
        last_committed: &mut LastCommittedLayout,
    ) -> (report: Result<SessionTickReport, EngineError>)
        ensures
            final(last_committed).cached() == cache_after_tick(layers, old(last_committed).cached()),
            exists|tick: FrameClockTick|
                tick_outcome(
                    *self,
                    tick.output,
                    tick.frame_serial,
                    layers,
                    old(last_committed).cached(),
                    report,
                ),
    {
        let tick = clock.next_frame(self.output.id);
        let report = self.run_session_tick(
            SessionTickRequest { output: tick.output, frame_serial: tick.frame_serial, layers },
            last_committed,
        );
        assert(tick_outcome(*self, tick.output, tick.frame_serial, layers, old(last_committed).cached(), report));
        report
    }
}

} // verus!
