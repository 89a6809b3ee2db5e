//! What the session runtime loop observes: each outside activity of a tick
//! (X events, window-manager layout, rendering, portal and chrome commands,
//! broker health, scanout) is summarised as one observation.

use vstd::prelude::*;

use crate::notification::{NotificationChromeUpdate, PortalCommand};
use crate::chrome::MetadataChromeUpdate;
use crate::num::{saturating_u32, usize_to_u32_saturating};
use crate::protocol::{
    CommittedSurfaceState, LayerSnapshot, OutputId, SurfaceId, SurfaceTransaction, TransactionCommit,
    TransactionId, TransactionOutcome,
};

verus! {

/// The brokers that report their health to the session.
#[derive(Clone, Copy, Debug, PartialEq, Eq, Structural)]
pub enum BrokerKind {
    Metadata,
    Portal,
    Input,
}

/// A broker's reported health.
#[derive(Clone, Copy, Debug, PartialEq, Eq, Structural)]
pub enum BrokerHealthState {
    Starting,
    Ready,
    Degraded,
    Failed,
}

/// A broker's health report, with an optional status message.
#[derive(Clone, Debug, PartialEq, Eq)]
pub struct BrokerHealthPacket {
    pub broker: BrokerKind,
    pub state: BrokerHealthState,
    pub generation: u64,
    pub message: Option<String>,
}

/// Where a submitted scanout frame stands.
#[derive(Clone, Copy, Debug, PartialEq, Eq, Structural)]
pub enum RuntimeScanoutState {
    Submitted,
    Rejected,
    Retired,
}

/// What the visual policy did for a client that was slow to draw.
#[derive(Clone, Copy, Debug, PartialEq, Eq, Structural)]
pub enum SlowClientVisualDecision {
    CommitReady { surface: SurfaceId },
    PreserveCommitted { surface: SurfaceId },
    DegradeToPending { surface: SurfaceId },
}

/// A rendered frame.
#[derive(Clone, Copy, Debug, PartialEq, Eq, Structural)]
pub struct RenderFrameReport {
    pub output: OutputId,
    pub frame_serial: u64,
}

/// One observation fed to the session runtime loop.
#[derive(Clone, Copy, Debug, PartialEq, Eq, Structural)]
pub enum SessionRuntimeObservation {
    TickStarted,
    XEventsPolled { count: u32 },
    WmLayoutReady,
    WmRestartRequested,
    FrameScheduled { frame_serial: u64 },
    FrameRendered { frame_serial: u64 },
    PortalCommandsReady { count: u32 },
    ChromeCommandsReady { count: u32 },
    BrokerHealthChanged {
        broker: BrokerKind,
        state: BrokerHealthState,
        generation: u64,
        status_message_len: usize,
    },
    AuthorityTransactionObserved { outcome: TransactionOutcome, applied_surface_count: u32 },
    SlowClientVisualDecisionsObserved { timeout_count: u32, preserved_count: u32, degraded_count: u32 },
    ScanoutStateChanged { state: RuntimeScanoutState, frame_serial: Option<u64> },
}

pub fn runtime_observation_from_authority_transaction_commit(commit: &TransactionCommit) -> (observation:
    SessionRuntimeObservation)
    ensures
        observation == (SessionRuntimeObservation::AuthorityTransactionObserved {
            outcome: commit.outcome,
            applied_surface_count: saturating_u32(commit.applied_surfaces@.len() as int),
        }),
{
    SessionRuntimeObservation::AuthorityTransactionObserved {
        outcome: commit.outcome,
        applied_surface_count: usize_to_u32_saturating(commit.applied_surfaces.len()),
    }
}

pub open spec fn is_preserved(d: SlowClientVisualDecision) -> bool {
    d matches SlowClientVisualDecision::PreserveCommitted { .. }
}

pub open spec fn is_degraded(d: SlowClientVisualDecision) -> bool {
    d matches SlowClientVisualDecision::DegradeToPending { .. }
}

/// Counts the preserved and degraded decisions; both are timeouts.
pub fn runtime_observation_from_slow_client_visual_decisions(decisions: &[SlowClientVisualDecision]) -> (observation:
    SessionRuntimeObservation)
    ensures
        ({
            let preserved = decisions@.filter(|d: SlowClientVisualDecision| is_preserved(d)).len();
            let degraded = decisions@.filter(|d: SlowClientVisualDecision| is_degraded(d)).len();
            observation == (SessionRuntimeObservation::SlowClientVisualDecisionsObserved {
                timeout_count: saturating_u32(preserved as int + degraded as int),
                preserved_count: saturating_u32(preserved as int),
                degraded_count: saturating_u32(degraded as int),
            })
        }),
{
    let ghost pp = |d: SlowClientVisualDecision| is_preserved(d);
    let ghost dp = |d: SlowClientVisualDecision| is_degraded(d);
    let mut preserved: usize = 0;
    let mut degraded: usize = 0;
    let mut i: usize = 0;
    while i < decisions.len()
        invariant
            i <= decisions@.len(),
            preserved == decisions@.subrange(0, i as int).filter(pp).len(),
            degraded == decisions@.subrange(0, i as int).filter(dp).len(),
            preserved + degraded <= i,
            pp == (|d: SlowClientVisualDecision| is_preserved(d)),
            dp == (|d: SlowClientVisualDecision| is_degraded(d)),
        decreases decisions@.len() - i,
    {
        let ghost prefix = decisions@.subrange(0, i as int);
        proof {
            assert(decisions@.subrange(0, i + 1) =~= prefix.push(decisions@[i as int]));
            prefix.lemma_filter_push(decisions@[i as int], pp);
            prefix.lemma_filter_push(decisions@[i as int], dp);
        }
        match decisions[i] {
            SlowClientVisualDecision::PreserveCommitted { .. } => preserved = preserved + 1,
            SlowClientVisualDecision::DegradeToPending { .. } => degraded = degraded + 1,
            SlowClientVisualDecision::CommitReady { .. } => {},
        }
        i = i + 1;
    }
    assert(decisions@.subrange(0, decisions@.len() as int) =~= decisions@);
    SessionRuntimeObservation::SlowClientVisualDecisionsObserved {
        timeout_count: usize_to_u32_saturating(preserved + degraded),
        preserved_count: usize_to_u32_saturating(preserved),
        degraded_count: usize_to_u32_saturating(degraded),
    }
}

pub fn runtime_observation_from_render_frame_report(report: &RenderFrameReport) -> (observation:
    SessionRuntimeObservation)
    ensures
        observation == (SessionRuntimeObservation::FrameRendered { frame_serial: report.frame_serial }),
{
    SessionRuntimeObservation::FrameRendered { frame_serial: report.frame_serial }
}

pub fn runtime_observation_from_portal_commands(commands: &[PortalCommand]) -> (observation:
    SessionRuntimeObservation)
    ensures
        observation == (SessionRuntimeObservation::PortalCommandsReady {
            count: saturating_u32(commands@.len() as int),
        }),
{
    SessionRuntimeObservation::PortalCommandsReady { count: usize_to_u32_saturating(commands.len()) }
}

pub open spec fn notification_changes_chrome(u: NotificationChromeUpdate) -> bool {
    u matches NotificationChromeUpdate::Presented { .. } || u matches NotificationChromeUpdate::Dismissed { .. }
}

pub open spec fn metadata_changes_chrome(u: MetadataChromeUpdate) -> bool {
    u matches MetadataChromeUpdate::Upserted { .. } || u matches MetadataChromeUpdate::Removed { .. }
}

/// The number of updates that changed what the chrome shows.
pub open spec fn notification_chrome_count(updates: Seq<NotificationChromeUpdate>) -> u32 {
    saturating_u32(updates.filter(|u: NotificationChromeUpdate| notification_changes_chrome(u)).len() as int)
}

/// The number of updates that changed what the chrome shows.
pub open spec fn metadata_chrome_count(updates: Seq<MetadataChromeUpdate>) -> u32 {
    saturating_u32(updates.filter(|u: MetadataChromeUpdate| metadata_changes_chrome(u)).len() as int)
}

/// Only presented and dismissed notifications change the chrome.
pub fn runtime_observation_from_notification_chrome_updates(updates: &[NotificationChromeUpdate]) -> (observation:
    SessionRuntimeObservation)
    ensures
        observation == (SessionRuntimeObservation::ChromeCommandsReady {
            count: notification_chrome_count(updates@),
        }),
{
    let ghost p = |u: NotificationChromeUpdate| notification_changes_chrome(u);
    let mut count: usize = 0;
    let mut i: usize = 0;
    while i < updates.len()
        invariant
            i <= updates@.len(),
            count == updates@.subrange(0, i as int).filter(p).len(),
            count <= i,
            p == (|u: NotificationChromeUpdate| notification_changes_chrome(u)),
        decreases updates@.len() - i,
    {
        proof {
            let prefix = updates@.subrange(0, i as int);
            assert(updates@.subrange(0, i + 1) =~= prefix.push(updates@[i as int]));
            prefix.lemma_filter_push(updates@[i as int], p);
        }
        match updates[i] {
            NotificationChromeUpdate::Presented { .. } => count = count + 1,
            NotificationChromeUpdate::Dismissed { .. } => count = count + 1,
            _ => {},
        }
        i = i + 1;
    }
    assert(updates@.subrange(0, updates@.len() as int) =~= updates@);
    SessionRuntimeObservation::ChromeCommandsReady { count: usize_to_u32_saturating(count) }
}

/// Only upserted and removed metadata change the chrome.
pub fn runtime_observation_from_metadata_chrome_updates(updates: &[MetadataChromeUpdate]) -> (observation:
    SessionRuntimeObservation)
    ensures
        observation == (SessionRuntimeObservation::ChromeCommandsReady {
            count: metadata_chrome_count(updates@),
        }),
{
    let ghost p = |u: MetadataChromeUpdate| metadata_changes_chrome(u);
    let mut count: usize = 0;
    let mut i: usize = 0;
    while i < updates.len()
        invariant
            i <= updates@.len(),
            count == updates@.subrange(0, i as int).filter(p).len(),
            count <= i,
            p == (|u: MetadataChromeUpdate| metadata_changes_chrome(u)),
        decreases updates@.len() - i,
    {
        proof {
            let prefix = updates@.subrange(0, i as int);
            assert(updates@.subrange(0, i + 1) =~= prefix.push(updates@[i as int]));
            prefix.lemma_filter_push(updates@[i as int], p);
        }
        match updates[i] {
            MetadataChromeUpdate::Upserted { .. } => count = count + 1,
            MetadataChromeUpdate::Removed { .. } => count = count + 1,
            _ => {},
        }
        i = i + 1;
    }
    assert(updates@.subrange(0, updates@.len() as int) =~= updates@);
    SessionRuntimeObservation::ChromeCommandsReady { count: usize_to_u32_saturating(count) }
}

/// The X authority's side of a tick: how many events were polled, and
/// the authority commits made before the tick.
#[derive(Clone, Debug, PartialEq, Eq)]
pub struct LiveXRuntimeAdapter {
    pub pending_event_count: u32,
    pub authority_commits: Vec<TransactionCommit>,
}

impl LiveXRuntimeAdapter {
    pub fn from_polled_event_count(count: u32) -> (adapter: LiveXRuntimeAdapter)
        ensures
            adapter.pending_event_count == count,
            adapter.authority_commits@.len() == 0,
    {
        LiveXRuntimeAdapter { pending_event_count: count, authority_commits: Vec::new() }
    }

    pub fn poll_observation(&self) -> (observation: SessionRuntimeObservation)
        ensures
            observation == (SessionRuntimeObservation::XEventsPolled { count: self.pending_event_count }),
    {
        SessionRuntimeObservation::XEventsPolled { count: self.pending_event_count }
    }
}

/// Broker health as runtime observations.
pub struct LiveBrokerRuntimeAdapter;

/// The observation of a health packet: its broker, state and generation,
/// and the byte length of its message (zero without one).
pub open spec fn health_observation_of(packet: BrokerHealthPacket) -> SessionRuntimeObservation {
    SessionRuntimeObservation::BrokerHealthChanged {
        broker: packet.broker,
        state: packet.state,
        generation: packet.generation,
        status_message_len: match packet.message {
            Some(m) => vstd::utf8::encode_utf8(m@).len() as usize,
            None => 0,
        },
    }
}

impl LiveBrokerRuntimeAdapter {
    pub fn from_health_packet(packet: &BrokerHealthPacket) -> (observation: SessionRuntimeObservation)
        ensures
            observation == health_observation_of(*packet),
    {
        Self::health_observation(packet)
    }

    pub fn health_observation(packet: &BrokerHealthPacket) -> (observation: SessionRuntimeObservation)
        ensures
            observation == health_observation_of(*packet),
    {
        let status_message_len = match &packet.message {
            Some(m) => m.as_str().as_bytes().len(),
            None => 0,
        };
        SessionRuntimeObservation::BrokerHealthChanged {
            broker: packet.broker,
            state: packet.state,
            generation: packet.generation,
            status_message_len,
        }
    }
}

/// The portal commands of a tick.
#[derive(Clone, Debug, PartialEq, Eq)]
pub struct LivePortalRuntimeAdapter {
    pub commands: Vec<PortalCommand>,
}

impl LivePortalRuntimeAdapter {
    pub fn from_commands(commands: Vec<PortalCommand>) -> (adapter: LivePortalRuntimeAdapter)
        ensures
            adapter.commands == commands,
    {
        LivePortalRuntimeAdapter { commands }
    }

    pub fn drain_observation(&self) -> (observation: SessionRuntimeObservation)
        ensures
            observation == (SessionRuntimeObservation::PortalCommandsReady {
                count: saturating_u32(self.commands@.len() as int),
            }),
    {
        runtime_observation_from_portal_commands(self.commands.as_slice())
    }
}

/// The number of chrome commands of a tick.
#[derive(Clone, Copy, Debug, PartialEq, Eq, Structural)]
pub struct LiveChromeRuntimeAdapter {
    pub command_count: u32,
}

impl LiveChromeRuntimeAdapter {
    pub fn from_command_count(count: u32) -> (adapter: LiveChromeRuntimeAdapter)
        ensures
            adapter.command_count == count,
    {
        LiveChromeRuntimeAdapter { command_count: count }
    }

    pub fn from_notification_updates(updates: &[NotificationChromeUpdate]) -> (adapter: LiveChromeRuntimeAdapter)
        ensures
            adapter.command_count == notification_chrome_count(updates@),
    {
        match runtime_observation_from_notification_chrome_updates(updates) {
            SessionRuntimeObservation::ChromeCommandsReady { count } => Self::from_command_count(count),
            _ => Self::from_command_count(0),
        }
    }

    pub fn from_metadata_updates(updates: &[MetadataChromeUpdate]) -> (adapter: LiveChromeRuntimeAdapter)
        ensures
            adapter.command_count == metadata_chrome_count(updates@),
    {
        match runtime_observation_from_metadata_chrome_updates(updates) {
            SessionRuntimeObservation::ChromeCommandsReady { count } => Self::from_command_count(count),
            _ => Self::from_command_count(0),
        }
    }

    pub fn present_observation(&self) -> (observation: SessionRuntimeObservation)
        ensures
            observation == (SessionRuntimeObservation::ChromeCommandsReady { count: self.command_count }),
    {
        SessionRuntimeObservation::ChromeCommandsReady { count: self.command_count }
    }
}

/// The scene a renderer draws: layer templates and, when present, the
/// committed surface states projected onto them.
#[derive(Clone, Debug, PartialEq, Eq)]
pub struct LiveRendererRuntimeAdapter {
    pub layers: Vec<LayerSnapshot>,
    pub committed_surfaces: Vec<CommittedSurfaceState>,
}

impl LiveRendererRuntimeAdapter {
    pub fn from_layers(layers: Vec<LayerSnapshot>) -> (adapter: LiveRendererRuntimeAdapter)
        ensures
            adapter.layers == layers,
            adapter.committed_surfaces@.len() == 0,
    {
        LiveRendererRuntimeAdapter { layers, committed_surfaces: Vec::new() }
    }

    pub fn from_committed_surface_states(
        committed_surfaces: Vec<CommittedSurfaceState>,
        layer_templates: Vec<LayerSnapshot>,
    ) -> (adapter: LiveRendererRuntimeAdapter)
        ensures
            adapter.layers == layer_templates,
            adapter.committed_surfaces == committed_surfaces,
    {
        LiveRendererRuntimeAdapter { layers: layer_templates, committed_surfaces }
    }

    pub fn from_render_frame_report(report: &RenderFrameReport) -> (observation: SessionRuntimeObservation)
        ensures
            observation == (SessionRuntimeObservation::FrameRendered { frame_serial: report.frame_serial }),
    {
        runtime_observation_from_render_frame_report(report)
    }
}

/// The scanout state a tick reports after submitting a frame.
#[derive(Clone, Copy, Debug, PartialEq, Eq, Structural)]
pub struct LiveScanoutRuntimeAdapter {
    submit_state: RuntimeScanoutState,
}

/// By default a scanout reports its frame submitted.
impl Default for LiveScanoutRuntimeAdapter {
    fn default() -> (adapter: LiveScanoutRuntimeAdapter)
        ensures
            adapter.state() == RuntimeScanoutState::Submitted,
    {
        Self::submitted()
    }
}

impl LiveScanoutRuntimeAdapter {
    pub closed spec fn state(self) -> RuntimeScanoutState {
        self.submit_state
    }

    pub fn from_submit_state(submit_state: RuntimeScanoutState) -> (adapter: LiveScanoutRuntimeAdapter)
        ensures
            adapter.state() == submit_state,
    {
        LiveScanoutRuntimeAdapter { submit_state }
    }

    pub fn submitted() -> (adapter: LiveScanoutRuntimeAdapter)
        ensures
            adapter.state() == RuntimeScanoutState::Submitted,
    {
        Self::from_submit_state(RuntimeScanoutState::Submitted)
    }

    pub fn rejected() -> (adapter: LiveScanoutRuntimeAdapter)
        ensures
            adapter.state() == RuntimeScanoutState::Rejected,
    {
        Self::from_submit_state(RuntimeScanoutState::Rejected)
    }

    pub fn submit_observation(&self, frame_serial: u64) -> (observation: SessionRuntimeObservation)
        ensures
            observation == (SessionRuntimeObservation::ScanoutStateChanged {
                state: self.state(),
                frame_serial: Some(frame_serial),
            }),
    {
        SessionRuntimeObservation::ScanoutStateChanged { state: self.submit_state, frame_serial: Some(frame_serial) }
    }
}

/// One authority transaction batch waiting to be committed.
#[derive(Clone, Debug, PartialEq, Eq)]
pub struct AuthorityTransactionIntake {
    pub transaction: TransactionId,
    pub transactions: Vec<SurfaceTransaction>,
}

impl AuthorityTransactionIntake {
    pub fn new(transaction: TransactionId, transactions: Vec<SurfaceTransaction>) -> (intake:
        AuthorityTransactionIntake)
        ensures
            intake.transaction == transaction,
            intake.transactions == transactions,
    {
        AuthorityTransactionIntake { transaction, transactions }
    }
}

} // verus!
