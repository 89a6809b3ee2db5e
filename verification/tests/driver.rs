use sophia_engine::driver::{LiveRuntimeDriverAdapter, LiveRuntimeDriverIntake, RuntimeDriverAdapter};
use sophia_engine::engine::{EngineError, HeadlessEngine};
use sophia_engine::protocol::{
    BufferSource, CommittedSurfaceState, OutputId, Rect, Region, SurfaceId, SurfaceTransaction,
    SurfaceTransactionReadiness, TransactionId, TransactionOutcome,
};
use sophia_engine::runtime::{AuthorityTransactionIntake, RuntimeScanoutState, SessionRuntimeObservation};
use sophia_engine::session::LastCommittedLayout;

fn rect(x: i32, y: i32, width: i32, height: i32) -> Rect {
    Rect { x, y, width, height }
}

fn transaction(raw: u64, surface: SurfaceId, previous: u64) -> SurfaceTransaction {
    SurfaceTransaction {
        transaction: TransactionId::from_raw(raw),
        surface,
        previous_committed_generation: previous,
        target_geometry: rect(0, 0, 100, 80),
        target_buffer: BufferSource::CpuBuffer { handle: raw },
        damage: Region::single(rect(0, 0, 100, 80)),
        readiness: SurfaceTransactionReadiness::Ready,
    }
}

fn intake(batches: Vec<AuthorityTransactionIntake>, committed: Vec<CommittedSurfaceState>) -> LiveRuntimeDriverIntake {
    LiveRuntimeDriverIntake {
        x_event_count: 2,
        authority_commits: Vec::new(),
        authority_batches: batches,
        wm_update: None,
        portal_commands: Vec::new(),
        chrome_command_count: 1,
        layers: Vec::new(),
        committed_surfaces: committed,
        scanout_submit_state: None,
    }
}

#[test]
fn live_driver_commits_authority_batches_in_order() {
    let engine = HeadlessEngine::default();
    let surface = SurfaceId::new(1, 1);
    let batches = vec![
        AuthorityTransactionIntake::new(TransactionId::from_raw(1), vec![transaction(1, surface, 0)]),
        AuthorityTransactionIntake::new(TransactionId::from_raw(2), vec![transaction(2, surface, 0)]),
        AuthorityTransactionIntake::new(TransactionId::from_raw(3), vec![transaction(3, surface, 1)]),
    ];
    let adapter = LiveRuntimeDriverAdapter::from_authority_batches(&engine, intake(batches, Vec::new()));

    let commits = &adapter.x.authority_commits;
    assert_eq!(commits.len(), 3);
    assert_eq!(commits[0].outcome, TransactionOutcome::Committed);
    assert_eq!(commits[1].transaction, TransactionId::from_raw(2));
    assert_eq!(commits[1].outcome, TransactionOutcome::RejectedStaleSurface);
    assert!(commits[1].applied_surfaces.is_empty());
    assert_eq!(commits[2].outcome, TransactionOutcome::Committed);
    assert_eq!(adapter.renderer.committed_surfaces.len(), 1);
    assert_eq!(adapter.renderer.committed_surfaces[0].committed_generation, 2);
    assert_eq!(adapter.x.pending_event_count, 2);
    assert_eq!(adapter.chrome.command_count, 1);
}

#[test]
fn live_driver_reports_scanout_and_rejects_unknown_committed_surfaces() {
    let engine = HeadlessEngine::default();
    let committed = vec![CommittedSurfaceState {
        surface: SurfaceId::new(4, 1),
        committed_generation: 1,
        geometry: rect(0, 0, 10, 10),
        buffer: BufferSource::CpuBuffer { handle: 1 },
        damage: Region::empty(),
    }];
    let mut adapter = LiveRuntimeDriverAdapter::from_intake(LiveRuntimeDriverIntake {
        scanout_submit_state: Some(RuntimeScanoutState::Rejected),
        ..intake(Vec::new(), committed)
    });

    assert_eq!(
        adapter.submit_scanout(7),
        Ok(SessionRuntimeObservation::ScanoutStateChanged {
            state: RuntimeScanoutState::Rejected,
            frame_serial: Some(7),
        })
    );
    assert_eq!(adapter.poll_x_events(), Ok(SessionRuntimeObservation::XEventsPolled { count: 2 }));
    assert_eq!(adapter.request_wm_layout(), Ok(SessionRuntimeObservation::WmLayoutReady));

    let mut last = LastCommittedLayout::new(Vec::new());
    assert_eq!(
        adapter.render_frame(&engine, OutputId::from_raw(1), 3, &mut last),
        Err(EngineError::InvalidSurface)
    );
    assert!(last.layers().is_empty());
}
