//! The adapters a session driver asks for one tick's outside work: the
//! headless adapter answers from values handed in, the live adapter from
//! what the live brokers, renderer and scanout reported.

use vstd::prelude::*;

use crate::engine::{
    EngineError, HeadlessEngine, apply_all, batch_outcome, projection_for,
};
use crate::num::saturating_u32;
use crate::notification::PortalCommand;
use crate::protocol::{
    CommittedSurfaceState, CommittedSurfaceStateView, LayerSnapshot, LayerSnapshotView, OutputId,
    TransactionCommit, TransactionOutcome, committed_views, layer_views,
};
use crate::runtime::{
    AuthorityTransactionIntake, LiveChromeRuntimeAdapter, LivePortalRuntimeAdapter, LiveRendererRuntimeAdapter,
    LiveScanoutRuntimeAdapter, LiveXRuntimeAdapter, RuntimeScanoutState, SessionRuntimeObservation,
    runtime_observation_from_portal_commands,
};
use crate::session::{
    LastCommittedLayout, SessionLayerSource, SessionTickReport, SessionTickRequest, tick_outcome,
};
use crate::wm::{LiveWmRuntimeAdapter, WmTransactionUpdate, runtime_observation_from_wm_transaction_update};

verus! {

broadcast use vstd::seq_lib::group_seq_properties;

/// A session tick's observation of the frame it rendered.
pub fn runtime_observation_from_session_tick_report(report: &SessionTickReport) -> (observation:
    SessionRuntimeObservation)
    ensures
        observation == (SessionRuntimeObservation::FrameRendered { frame_serial: report.frame.frame_serial }),
{
    SessionRuntimeObservation::FrameRendered { frame_serial: report.frame.frame_serial }
}

/// The outside work a session driver asks for during one tick.
pub trait RuntimeDriverAdapter {
    fn poll_x_events(&mut self) -> Result<SessionRuntimeObservation, EngineError>;

    fn request_wm_layout(&mut self) -> Result<SessionRuntimeObservation, EngineError>;

    fn schedule_frame(&mut self, frame_serial: u64) -> Result<SessionRuntimeObservation, EngineError>;

    fn render_frame(
        &mut self,
        engine: &HeadlessEngine,
        output: OutputId,
        frame_serial: u64,
        last_committed: &mut LastCommittedLayout,
    ) -> Result<SessionTickReport, EngineError>;

    fn drain_portal_commands(&mut self) -> Result<SessionRuntimeObservation, EngineError>;

    fn present_chrome(&mut self) -> Result<SessionRuntimeObservation, EngineError>;
}

/// The values one headless tick runs on.
#[derive(Clone, Debug, PartialEq, Eq)]
pub struct HeadlessSessionDriverTick {
    pub output: OutputId,
    pub frame_serial: u64,
    pub x_event_count: u32,
    pub layers: Vec<LayerSnapshot>,
    pub wm_update: Option<WmTransactionUpdate>,
    pub portal_commands: Vec<PortalCommand>,
    pub chrome_command_count: u32,
}

/// An adapter that answers every request from the values of one tick.
#[derive(Clone, Debug, PartialEq, Eq)]
pub struct HeadlessRuntimeAdapter {
    pub x_event_count: u32,
    pub layers: Vec<LayerSnapshot>,
    pub wm_update: Option<WmTransactionUpdate>,
    pub portal_commands: Vec<PortalCommand>,
    pub chrome_command_count: u32,
}

impl HeadlessRuntimeAdapter {
    pub fn new(tick: HeadlessSessionDriverTick) -> (adapter: HeadlessRuntimeAdapter)
        ensures
            adapter.x_event_count == tick.x_event_count,
            adapter.layers == tick.layers,
            adapter.wm_update == tick.wm_update,
            adapter.portal_commands == tick.portal_commands,
            adapter.chrome_command_count == tick.chrome_command_count,
    {
        HeadlessRuntimeAdapter {
            x_event_count: tick.x_event_count,
            layers: tick.layers,
            wm_update: tick.wm_update,
            portal_commands: tick.portal_commands,
            chrome_command_count: tick.chrome_command_count,
        }
    }
}

fn copy_layers(layers: &Vec<LayerSnapshot>) -> (copy: Vec<LayerSnapshot>)
    ensures
        layer_views(copy@) == layer_views(layers@),
{
    let mut copy: Vec<LayerSnapshot> = Vec::new();
    let mut i: usize = 0;
    while i < layers.len()
        invariant
            i <= layers@.len(),
            copy@.len() == i,
            forall|k: int| 0 <= k < i ==> (#[trigger] copy@[k])@ == layers@[k]@,
        decreases layers@.len() - i,
    {
        copy.push(layers[i].copied());
        i = i + 1;
    }
    assert(layer_views(copy@) =~= layer_views(layers@));
    copy
}

impl RuntimeDriverAdapter for HeadlessRuntimeAdapter {
    fn poll_x_events(&mut self) -> (observation: Result<SessionRuntimeObservation, EngineError>)
        ensures
            observation == Ok::<SessionRuntimeObservation, EngineError>(
                SessionRuntimeObservation::XEventsPolled { count: old(self).x_event_count },
            ),
    {
        Ok(SessionRuntimeObservation::XEventsPolled { count: self.x_event_count })
    }

    fn request_wm_layout(&mut self) -> (observation: Result<SessionRuntimeObservation, EngineError>)
        ensures
            observation == Ok::<SessionRuntimeObservation, EngineError>(
                match old(self).wm_update {
                    Some(u) => if u.ipc_error is Some {
                        SessionRuntimeObservation::WmRestartRequested
                    } else {
                        SessionRuntimeObservation::WmLayoutReady
                    },
                    None => SessionRuntimeObservation::WmLayoutReady,
                },
            ),
    {
        match &self.wm_update {
            Some(u) => Ok(runtime_observation_from_wm_transaction_update(u)),
            None => Ok(SessionRuntimeObservation::WmLayoutReady),
        }
    }

    fn schedule_frame(&mut self, frame_serial: u64) -> (observation: Result<SessionRuntimeObservation, EngineError>)
        ensures
            observation == Ok::<SessionRuntimeObservation, EngineError>(
                SessionRuntimeObservation::FrameScheduled { frame_serial },
            ),
    {
        Ok(SessionRuntimeObservation::FrameScheduled { frame_serial })
    }

    /// Runs a session tick on a copy of the tick's layers.
    fn render_frame(
        &mut self,
        engine: &HeadlessEngine,
        output: OutputId,
        frame_serial: u64,
        last_committed: &mut LastCommittedLayout,
    ) -> (report: Result<SessionTickReport, EngineError>)
        ensures
            final(last_committed).cached() == layer_views(old(self).layers@),
            tick_outcome(
                *engine,
                output,
                frame_serial,
                SessionLayerSource::Fresh(old(self).layers),
                old(last_committed).cached(),
                report,
            ),
    {
        let layers = copy_layers(&self.layers);
        let ghost source = SessionLayerSource::Fresh(layers);
        let report = engine.run_session_tick(
            SessionTickRequest { output, frame_serial, layers: SessionLayerSource::Fresh(layers) },
            last_committed,
        );
        report
    }

    fn drain_portal_commands(&mut self) -> (observation: Result<SessionRuntimeObservation, EngineError>)
        ensures
            observation == Ok::<SessionRuntimeObservation, EngineError>(
                SessionRuntimeObservation::PortalCommandsReady {
                    count: saturating_u32(old(self).portal_commands@.len() as int),
                },
            ),
    {
        Ok(runtime_observation_from_portal_commands(self.portal_commands.as_slice()))
    }

    fn present_chrome(&mut self) -> (observation: Result<SessionRuntimeObservation, EngineError>)
        ensures
            observation == Ok::<SessionRuntimeObservation, EngineError>(
                SessionRuntimeObservation::ChromeCommandsReady { count: old(self).chrome_command_count },
            ),
    {
        Ok(SessionRuntimeObservation::ChromeCommandsReady { count: self.chrome_command_count })
    }
}

impl AuthorityTransactionIntake {
    /// Commits the batch on top of `committed`, all or nothing.
    pub fn commit(&self, engine: &HeadlessEngine, committed: &mut Vec<CommittedSurfaceState>) -> (commit:
        TransactionCommit)
        ensures
            commit.transaction == self.transaction,
            commit.outcome == intake_outcome(committed_views(old(committed)@), *self),
            committed_views(final(committed)@) == states_after_intake(committed_views(old(committed)@), *self),
            match batch_outcome(committed_views(old(committed)@), self.transaction, self.transactions@) {
                Some(_) => commit.applied_surfaces@.len() == 0,
                None => commit.applied_surfaces@ == crate::engine::batch_surfaces(self.transactions@),
            },
    {
        engine.commit_surface_transactions(self.transaction, self.transactions.as_slice(), committed)
    }
}

/// The outcome of committing one batch on top of `states`.
pub open spec fn intake_outcome(states: Seq<CommittedSurfaceStateView>, b: AuthorityTransactionIntake) -> TransactionOutcome {
    match batch_outcome(states, b.transaction, b.transactions@) {
        Some(o) => o,
        None => TransactionOutcome::Committed,
    }
}

/// The committed states after one batch.
pub open spec fn states_after_intake(states: Seq<CommittedSurfaceStateView>, b: AuthorityTransactionIntake) -> Seq<
    CommittedSurfaceStateView,
> {
    match batch_outcome(states, b.transaction, b.transactions@) {
        Some(_) => states,
        None => apply_all(states, b.transactions@),
    }
}

/// The committed states after every batch, in order.
pub open spec fn states_after_intakes(states: Seq<CommittedSurfaceStateView>, bs: Seq<AuthorityTransactionIntake>) -> Seq<
    CommittedSurfaceStateView,
>
    decreases bs.len(),
{
    if bs.len() == 0 {
        states
    } else {
        states_after_intake(states_after_intakes(states, bs.drop_last()), bs.last())
    }
}

/// The layers a renderer draws: the templates themselves without committed
/// states, else each committed state projected onto its template.
pub open spec fn renderer_layers(
    committed: Seq<CommittedSurfaceStateView>,
    templates: Seq<LayerSnapshotView>,
) -> Option<Seq<LayerSnapshotView>> {
    if committed.len() == 0 {
        Some(templates)
    } else if forall|i: int| 0 <= i < committed.len() ==> (#[trigger] projection_for(committed[i], templates)) is Some {
        Some(Seq::new(committed.len(), |i: int| projection_for(committed[i], templates)->Some_0))
    } else {
        None
    }
}

impl LiveRendererRuntimeAdapter {
    /// Renders a tick from the projected committed states (or the templates
    /// alone); a committed state without a template is `InvalidSurface`.
    pub fn render_frame(
        &mut self,
        engine: &HeadlessEngine,
        output: OutputId,
        frame_serial: u64,
        last_committed: &mut LastCommittedLayout,
    ) -> (report: Result<SessionTickReport, EngineError>)
        ensures
            match renderer_layers(committed_views(old(self).committed_surfaces@), layer_views(old(self).layers@)) {
                None => report == Err::<SessionTickReport, EngineError>(EngineError::InvalidSurface)
                    && final(last_committed).cached() == old(last_committed).cached(),
                Some(ls) => {
                    &&& final(last_committed).cached() == ls
                    &&& exists|fresh: Vec<LayerSnapshot>|
                        layer_views(fresh@) == ls && tick_outcome(
                            *engine,
                            output,
                            frame_serial,
                            SessionLayerSource::Fresh(fresh),
                            old(last_committed).cached(),
                            report,
                        )
                },
            },
    {
        let ghost committed = committed_views(self.committed_surfaces@);
        let ghost templates = layer_views(self.layers@);
        let layers = if self.committed_surfaces.len() == 0 {
            copy_layers(&self.layers)
        } else {
            match engine.project_committed_surface_states(&self.committed_surfaces, &self.layers) {
                Ok(ls) => {
                    assert(layer_views(ls@) =~= Seq::new(
                        committed.len(),
                        |i: int| projection_for(committed[i], templates)->Some_0,
                    ));
                    ls
                },
                Err(e) => {
                    proof {
                        let i = choose|i: int|
                            0 <= i < self.committed_surfaces@.len() && (#[trigger] projection_for(
                                self.committed_surfaces@[i]@,
                                layer_views(self.layers@),
                            )) is None;
                        assert(committed[i] == self.committed_surfaces@[i]@);
                    }
                    return Err(e);
                },
            }
        };
        let ghost fresh = layers;
        let report = engine.run_session_tick(
            SessionTickRequest { output, frame_serial, layers: SessionLayerSource::Fresh(layers) },
            last_committed,
        );
        assert(layer_views(fresh@) == renderer_layers(committed, templates)->Some_0);
        report
    }

    /// The observation of a rendered tick.
    pub fn rendered_observation(report: &SessionTickReport) -> (observation: SessionRuntimeObservation)
        ensures
            observation == (SessionRuntimeObservation::FrameRendered { frame_serial: report.frame.frame_serial }),
    {
        runtime_observation_from_session_tick_report(report)
    }
}

/// Everything the live brokers, renderer and scanout reported for one tick.
#[derive(Clone, Debug, PartialEq, Eq)]
pub struct LiveRuntimeDriverIntake {
    pub x_event_count: u32,
    pub authority_commits: Vec<TransactionCommit>,
    pub authority_batches: Vec<AuthorityTransactionIntake>,
    pub wm_update: Option<WmTransactionUpdate>,
    pub portal_commands: Vec<PortalCommand>,
    pub chrome_command_count: u32,
    pub layers: Vec<LayerSnapshot>,
    pub committed_surfaces: Vec<CommittedSurfaceState>,
    pub scanout_submit_state: Option<RuntimeScanoutState>,
}

/// The live adapters of one tick.
#[derive(Clone, Debug, PartialEq, Eq)]
pub struct LiveRuntimeDriverAdapter {
    pub x: LiveXRuntimeAdapter,
    pub wm: LiveWmRuntimeAdapter,
    pub portal: LivePortalRuntimeAdapter,
    pub chrome: LiveChromeRuntimeAdapter,
    pub renderer: LiveRendererRuntimeAdapter,
    pub scanout: LiveScanoutRuntimeAdapter,
}

impl LiveRuntimeDriverAdapter {
    /// The adapters for what the intake reports; the scanout reports a
    /// submitted frame unless the intake says otherwise.
    pub fn from_intake(intake: LiveRuntimeDriverIntake) -> (adapter: LiveRuntimeDriverAdapter)
        ensures
            adapter.x.pending_event_count == intake.x_event_count,
            adapter.x.authority_commits == intake.authority_commits,
            adapter.wm.update == intake.wm_update,
            adapter.portal.commands == intake.portal_commands,
            adapter.chrome.command_count == intake.chrome_command_count,
            adapter.renderer.layers == intake.layers,
            adapter.renderer.committed_surfaces == intake.committed_surfaces,
            adapter.scanout.state() == match intake.scanout_submit_state {
                Some(state) => state,
                None => RuntimeScanoutState::Submitted,
            },
    {
        let mut x = LiveXRuntimeAdapter::from_polled_event_count(intake.x_event_count);
        x.authority_commits = intake.authority_commits;
        let state = match intake.scanout_submit_state {
            Some(state) => state,
            None => RuntimeScanoutState::Submitted,
        };
        LiveRuntimeDriverAdapter {
            x,
            wm: LiveWmRuntimeAdapter { update: intake.wm_update },
            portal: LivePortalRuntimeAdapter::from_commands(intake.portal_commands),
            chrome: LiveChromeRuntimeAdapter::from_command_count(intake.chrome_command_count),
            renderer: LiveRendererRuntimeAdapter::from_committed_surface_states(
                intake.committed_surfaces,
                intake.layers,
            ),
            scanout: LiveScanoutRuntimeAdapter::from_submit_state(state),
        }
    }

    /// Commits the intake's authority batches in order on top of its
    /// committed states, appends their commits, and builds the adapters.
    pub fn from_authority_batches(engine: &HeadlessEngine, intake: LiveRuntimeDriverIntake) -> (adapter:
        LiveRuntimeDriverAdapter)
        ensures
            committed_views(adapter.renderer.committed_surfaces@) == states_after_intakes(
                committed_views(intake.committed_surfaces@),
                intake.authority_batches@,
            ),
            adapter.x.authority_commits@.len() == intake.authority_commits@.len() + intake.authority_batches@.len(),
            forall|k: int|
                0 <= k < intake.authority_commits@.len() ==> adapter.x.authority_commits@[k]
                    == intake.authority_commits@[k],
            forall|k: int|
                0 <= k < intake.authority_batches@.len() ==> {
                    let c = #[trigger] adapter.x.authority_commits@[intake.authority_commits@.len() + k];
                    &&& c.transaction == intake.authority_batches@[k].transaction
                    &&& c.outcome == intake_outcome(
                        states_after_intakes(
                            committed_views(intake.committed_surfaces@),
                            intake.authority_batches@.subrange(0, k),
                        ),
                        intake.authority_batches@[k],
                    )
                },
            adapter.x.pending_event_count == intake.x_event_count,
            adapter.wm.update == intake.wm_update,
            adapter.portal.commands == intake.portal_commands,
            adapter.chrome.command_count == intake.chrome_command_count,
            adapter.renderer.layers == intake.layers,
            adapter.scanout.state() == match intake.scanout_submit_state {
                Some(state) => state,
                None => RuntimeScanoutState::Submitted,
            },
    {
        let ghost start = committed_views(intake.committed_surfaces@);
        let ghost batches = intake.authority_batches@;
        let ghost first = intake.authority_commits@;
        let mut intake = intake;
        let mut committed = crate::engine::copy_states(&intake.committed_surfaces);
        let mut commits = intake.authority_commits;
        intake.authority_commits = Vec::new();
        let mut i: usize = 0;
        while i < intake.authority_batches.len()
            invariant
                i <= batches.len(),
                intake.authority_batches@ == batches,
                committed_views(committed@) == states_after_intakes(start, batches.subrange(0, i as int)),
                commits@.len() == first.len() + i,
                forall|k: int| 0 <= k < first.len() ==> commits@[k] == first[k],
                forall|k: int|
                    0 <= k < i ==> {
                        let c = #[trigger] commits@[first.len() + k];
                        &&& c.transaction == batches[k].transaction
                        &&& c.outcome == intake_outcome(
                            states_after_intakes(start, batches.subrange(0, k)),
                            batches[k],
                        )
                    },
            decreases batches.len() - i,
        {
            let ghost before = committed_views(committed@);
            assert(batches.subrange(0, i + 1).drop_last() =~= batches.subrange(0, i as int));
            let commit = intake.authority_batches[i].commit(engine, &mut committed);
            commits.push(commit);
            i = i + 1;
        }
        assert(batches.subrange(0, batches.len() as int) =~= batches);
        intake.authority_commits = commits;
        intake.committed_surfaces = committed;
        Self::from_intake(intake)
    }

    /// The scanout's observation of a submitted frame.
    pub fn submit_scanout(&mut self, frame_serial: u64) -> (observation: Result<SessionRuntimeObservation, EngineError>)
        ensures
            observation == Ok::<SessionRuntimeObservation, EngineError>(
                SessionRuntimeObservation::ScanoutStateChanged {
                    state: old(self).scanout.state(),
                    frame_serial: Some(frame_serial),
                },
            ),
    {
        Ok(self.scanout.submit_observation(frame_serial))
    }
}

impl RuntimeDriverAdapter for LiveRuntimeDriverAdapter {
    fn poll_x_events(&mut self) -> (observation: Result<SessionRuntimeObservation, EngineError>)
        ensures
            observation == Ok::<SessionRuntimeObservation, EngineError>(
                SessionRuntimeObservation::XEventsPolled { count: old(self).x.pending_event_count },
            ),
    {
        Ok(self.x.poll_observation())
    }

    fn request_wm_layout(&mut self) -> (observation: Result<SessionRuntimeObservation, EngineError>)
        ensures
            observation == Ok::<SessionRuntimeObservation, EngineError>(
                match old(self).wm.update {
                    Some(u) => if u.ipc_error is Some {
                        SessionRuntimeObservation::WmRestartRequested
                    } else {
                        SessionRuntimeObservation::WmLayoutReady
                    },
                    None => SessionRuntimeObservation::WmLayoutReady,
                },
            ),
    {
        Ok(self.wm.layout_observation())
    }

    fn schedule_frame(&mut self, frame_serial: u64) -> (observation: Result<SessionRuntimeObservation, EngineError>)
        ensures
            observation == Ok::<SessionRuntimeObservation, EngineError>(
                SessionRuntimeObservation::FrameScheduled { frame_serial },
            ),
    {
        Ok(SessionRuntimeObservation::FrameScheduled { frame_serial })
    }

    fn render_frame(
        &mut self,
        engine: &HeadlessEngine,
        output: OutputId,
        frame_serial: u64,
        last_committed: &mut LastCommittedLayout,
    ) -> (report: Result<SessionTickReport, EngineError>)
        ensures
            match renderer_layers(
                committed_views(old(self).renderer.committed_surfaces@),
                layer_views(old(self).renderer.layers@),
            ) {
                None => report == Err::<SessionTickReport, EngineError>(EngineError::InvalidSurface)
                    && final(last_committed).cached() == old(last_committed).cached(),
                Some(ls) => {
                    &&& final(last_committed).cached() == ls
                    &&& exists|fresh: Vec<LayerSnapshot>|
                        layer_views(fresh@) == ls && tick_outcome(
                            *engine,
                            output,
                            frame_serial,
                            SessionLayerSource::Fresh(fresh),
                            old(last_committed).cached(),
                            report,
                        )
                },
            },
    {
        self.renderer.render_frame(engine, output, frame_serial, last_committed)
    }

    fn drain_portal_commands(&mut self) -> (observation: Result<SessionRuntimeObservation, EngineError>)
        ensures
            observation == Ok::<SessionRuntimeObservation, EngineError>(
                SessionRuntimeObservation::PortalCommandsReady {
                    count: saturating_u32(old(self).portal.commands@.len() as int),
                },
            ),
    {
        Ok(self.portal.drain_observation())
    }

    fn present_chrome(&mut self) -> (observation: Result<SessionRuntimeObservation, EngineError>)
        ensures
            observation == Ok::<SessionRuntimeObservation, EngineError>(
                SessionRuntimeObservation::ChromeCommandsReady { count: old(self).chrome.command_count },
            ),
    {
        Ok(self.chrome.present_observation())
    }
}

} // verus!
