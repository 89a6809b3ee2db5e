use sophia_engine::engine::HeadlessEngine;
use sophia_engine::frame::FrameClockTick;
use sophia_engine::output::{
    decide_output_vrr, DrmKmsMode, DrmKmsOutputDescriptor, DrmKmsOutputRegistry, ExtendedDesktopTopology,
    OutputVrrCapability, OutputVrrDecision, OutputVrrEligibility,
};
use sophia_engine::page_flip::{collect_pending_surfaces, PageFlipCommitGate, PageFlipCommitOutcome};
use sophia_engine::presentation::{
    OutputPresentationRegistry, OutputPresentationRetire, OutputPresentationSchedule,
};
use sophia_engine::protocol::{
    BufferSource, CommittedSurfaceState, OutputId, Rect, Region, Size, SurfaceId, SurfaceTransaction,
    SurfaceTransactionReadiness, TransactionId, TransactionOutcome,
};

fn rect(x: i32, y: i32, width: i32, height: i32) -> Rect {
    Rect { x, y, width, height }
}

fn transaction(
    raw: u64,
    surface: SurfaceId,
    previous: u64,
    readiness: SurfaceTransactionReadiness,
) -> SurfaceTransaction {
    SurfaceTransaction {
        transaction: TransactionId::from_raw(raw),
        surface,
        previous_committed_generation: previous,
        target_geometry: rect(0, 0, 320, 200),
        target_buffer: BufferSource::CpuBuffer { handle: 7 },
        damage: Region::single(rect(0, 0, 320, 200)),
        readiness,
    }
}

fn tick(output: u64, frame_serial: u64) -> FrameClockTick {
    FrameClockTick { output: OutputId::from_raw(output), frame_serial, target_msec: frame_serial * 16 }
}

fn descriptor(raw: u64, width: i32, height: i32, scale: u32) -> DrmKmsOutputDescriptor {
    DrmKmsOutputDescriptor {
        output: OutputId::from_raw(raw),
        connector_id: 40 + raw as u32,
        crtc_id: 90 + raw as u32,
        mode: DrmKmsMode::new(width, height, 60_000),
        scale,
    }
}

#[test]
fn page_flip_gate_is_idle_until_a_batch_is_staged() {
    let engine = HeadlessEngine::default();
    let mut gate = PageFlipCommitGate::new();
    let mut committed: Vec<CommittedSurfaceState> = Vec::new();
    assert!(gate.staged().is_none());
    assert_eq!(gate.commit_on_page_flip(&engine, tick(1, 1), &mut committed), PageFlipCommitOutcome::Idle);
    assert!(committed.is_empty());
}

#[test]
fn page_flip_gate_waits_for_its_output_and_for_pixels() {
    let engine = HeadlessEngine::default();
    let surface = SurfaceId::new(1, 1);
    let mut gate = PageFlipCommitGate::new();
    let mut committed: Vec<CommittedSurfaceState> = Vec::new();
    gate.stage(
        OutputId::from_raw(1),
        TransactionId::from_raw(9),
        vec![transaction(9, surface, 0, SurfaceTransactionReadiness::Pending)],
    );

    assert_eq!(
        gate.commit_on_page_flip(&engine, tick(2, 1), &mut committed),
        PageFlipCommitOutcome::WaitingForOutput {
            expected: OutputId::from_raw(1),
            actual: OutputId::from_raw(2),
            transaction: TransactionId::from_raw(9),
        }
    );
    assert_eq!(
        gate.commit_on_page_flip(&engine, tick(1, 2), &mut committed),
        PageFlipCommitOutcome::WaitingForTransactionReadiness {
            transaction: TransactionId::from_raw(9),
            pending_surfaces: vec![surface],
        }
    );
    assert!(gate.staged().is_some());
    assert!(committed.is_empty());
}

#[test]
fn page_flip_gate_commits_a_ready_batch_on_its_flip() {
    let engine = HeadlessEngine::default();
    let surface = SurfaceId::new(1, 1);
    let mut gate = PageFlipCommitGate::new();
    let mut committed: Vec<CommittedSurfaceState> = Vec::new();
    gate.stage(
        OutputId::from_raw(1),
        TransactionId::from_raw(9),
        vec![transaction(9, surface, 0, SurfaceTransactionReadiness::Ready)],
    );

    match gate.commit_on_page_flip(&engine, tick(1, 3), &mut committed) {
        PageFlipCommitOutcome::Committed { frame_serial, commit } => {
            assert_eq!(frame_serial, 3);
            assert_eq!(commit.transaction, TransactionId::from_raw(9));
            assert_eq!(commit.outcome, TransactionOutcome::Committed);
            assert_eq!(commit.applied_surfaces, vec![surface]);
        },
        other => panic!("unexpected outcome {:?}", other),
    }
    assert!(gate.staged().is_none());
    assert_eq!(committed.len(), 1);
    assert_eq!(committed[0].surface, surface);
    assert_eq!(committed[0].committed_generation, 1);
    assert_eq!(committed[0].geometry, rect(0, 0, 320, 200));
}

#[test]
fn page_flip_gate_rejects_a_stale_batch_and_keeps_state() {
    let engine = HeadlessEngine::default();
    let surface = SurfaceId::new(1, 1);
    let mut gate = PageFlipCommitGate::new();
    let mut committed: Vec<CommittedSurfaceState> = Vec::new();
    gate.stage(
        OutputId::from_raw(1),
        TransactionId::from_raw(10),
        vec![transaction(10, surface, 5, SurfaceTransactionReadiness::Ready)],
    );

    match gate.commit_on_page_flip(&engine, tick(1, 4), &mut committed) {
        PageFlipCommitOutcome::Rejected { frame_serial, commit } => {
            assert_eq!(frame_serial, 4);
            assert_eq!(commit.outcome, TransactionOutcome::RejectedStaleSurface);
            assert!(commit.applied_surfaces.is_empty());
        },
        other => panic!("unexpected outcome {:?}", other),
    }
    assert!(gate.staged().is_none());
    assert!(committed.is_empty());
}

#[test]
fn page_flip_gate_clear_hands_back_the_batch() {
    let mut gate = PageFlipCommitGate::new();
    gate.stage(OutputId::from_raw(3), TransactionId::from_raw(11), Vec::new());
    let batch = gate.clear().expect("a staged batch");
    assert_eq!(batch.output, OutputId::from_raw(3));
    assert_eq!(batch.transaction, TransactionId::from_raw(11));
    assert!(gate.clear().is_none());
}

#[test]
fn pending_surfaces_are_listed_in_batch_order() {
    let a = SurfaceId::new(1, 1);
    let b = SurfaceId::new(2, 1);
    let c = SurfaceId::new(3, 1);
    let batch = vec![
        transaction(1, a, 0, SurfaceTransactionReadiness::Pending),
        transaction(1, b, 0, SurfaceTransactionReadiness::Ready),
        transaction(1, c, 0, SurfaceTransactionReadiness::Pending),
    ];
    assert_eq!(collect_pending_surfaces(&Vec::new(), &batch), vec![a, c]);
}

#[test]
fn presentation_schedules_only_damaged_idle_outputs() {
    let mut outputs = DrmKmsOutputRegistry::new();
    outputs.upsert(descriptor(2, 1920, 1080, 1));
    outputs.upsert(descriptor(1, 1280, 720, 1));
    let mut registry = OutputPresentationRegistry::from_outputs(&outputs);
    let states = registry.outputs();
    assert_eq!(states.len(), 2);
    assert_eq!(states[0].output, OutputId::from_raw(1));
    assert_eq!(states[1].output, OutputId::from_raw(2));
    assert_eq!(states[0].refresh_millihz, 60_000);

    assert_eq!(registry.schedule(OutputId::from_raw(1)), OutputPresentationSchedule::WaitingForDamage);
    assert!(registry.mark_damage(OutputId::from_raw(1)));
    assert!(!registry.mark_damage(OutputId::from_raw(7)));
    assert_eq!(
        registry.schedule(OutputId::from_raw(1)),
        OutputPresentationSchedule::Scheduled(FrameClockTick {
            output: OutputId::from_raw(1),
            frame_serial: 1,
            target_msec: 16,
        })
    );
    assert!(registry.mark_damage(OutputId::from_raw(1)));
    assert_eq!(
        registry.schedule(OutputId::from_raw(1)),
        OutputPresentationSchedule::WaitingForRetirement { frame_serial: 1 }
    );
    assert_eq!(registry.schedule(OutputId::from_raw(9)), OutputPresentationSchedule::UnknownOutput);
    assert_eq!(registry.schedule(OutputId::from_raw(2)), OutputPresentationSchedule::WaitingForDamage);
}

#[test]
fn presentation_retires_exactly_the_submitted_frame() {
    let mut outputs = DrmKmsOutputRegistry::new();
    outputs.upsert(descriptor(1, 1280, 720, 1));
    let mut registry = OutputPresentationRegistry::from_outputs(&outputs);
    let output = OutputId::from_raw(1);

    assert_eq!(registry.retire(output, 1), OutputPresentationRetire::NoSubmission);
    registry.mark_damage(output);
    registry.schedule(output);
    assert_eq!(
        registry.retire(output, 2),
        OutputPresentationRetire::UnexpectedFrame { expected: 1, actual: 2 }
    );
    assert_eq!(registry.retire(output, 1), OutputPresentationRetire::Retired { frame_serial: 1 });
    let state = registry.get(output).expect("registered output");
    assert_eq!(state.in_flight_frame, None);
    assert_eq!(state.last_retired_frame, Some(1));
    assert_eq!(registry.retire(OutputId::from_raw(4), 1), OutputPresentationRetire::UnknownOutput);

    registry.mark_damage(output);
    assert_eq!(
        registry.schedule(output),
        OutputPresentationSchedule::Scheduled(FrameClockTick { output, frame_serial: 2, target_msec: 32 })
    );
}

#[test]
fn extended_desktop_places_outputs_side_by_side() {
    let mut outputs = DrmKmsOutputRegistry::new();
    outputs.upsert(descriptor(1, 2560, 1440, 2));
    outputs.upsert(descriptor(2, 1920, 1080, 0));
    let topology = ExtendedDesktopTopology::from_drm_outputs(&outputs);

    assert_eq!(topology.logical_size(), Size { width: 1280 + 1920, height: 1080 });
    let first = topology.get(OutputId::from_raw(1)).expect("first output");
    assert_eq!(first.logical, rect(0, 0, 1280, 720));
    assert_eq!(first.scale, 2);
    let second = topology.get(OutputId::from_raw(2)).expect("second output");
    assert_eq!(second.logical, rect(1280, 0, 1920, 1080));
    assert_eq!(second.scale, 1);
    assert!(topology.get(OutputId::from_raw(3)).is_none());
    assert_eq!(topology.outputs().len(), 2);
}

#[test]
fn output_projection_clips_and_scales_damage() {
    let mut outputs = DrmKmsOutputRegistry::new();
    outputs.upsert(descriptor(1, 2560, 1440, 2));
    outputs.upsert(descriptor(2, 1920, 1080, 1));
    let topology = ExtendedDesktopTopology::from_drm_outputs(&outputs);
    let first = topology.get(OutputId::from_raw(1)).unwrap();
    let second = topology.get(OutputId::from_raw(2)).unwrap();

    let straddling = rect(1200, 700, 200, 100);
    assert_eq!(first.project_rect(straddling), Some(rect(1200, 700, 80, 20)));
    assert_eq!(first.project_rect_pixels(straddling), Some(rect(2400, 1400, 160, 40)));
    assert_eq!(second.project_rect(straddling), Some(rect(0, 700, 120, 100)));
    assert_eq!(second.project_rect(rect(0, 0, 10, 10)), None);

    let damage = Region { rects: vec![rect(0, 0, 10, 10), straddling] };
    assert_eq!(second.project_damage(&damage).rects, vec![rect(0, 700, 120, 100)]);
    assert_eq!(
        first.project_damage_pixels(&damage).rects,
        vec![rect(0, 0, 20, 20), rect(2400, 1400, 160, 40)]
    );
}

#[test]
fn vrr_needs_policy_capability_and_a_lone_fullscreen_surface() {
    let eligible = OutputVrrEligibility {
        opaque_fullscreen_surface_count: 1,
        unoccluded: true,
        overlays_present: false,
        composition_required: false,
    };
    let capable = OutputVrrCapability { capable: true };
    assert!(eligible.fullscreen_eligible());
    assert_eq!(decide_output_vrr(true, capable, eligible), OutputVrrDecision::Enabled);
    assert_eq!(decide_output_vrr(false, capable, eligible), OutputVrrDecision::DisabledByPolicy);
    assert_eq!(
        decide_output_vrr(true, OutputVrrCapability { capable: false }, eligible),
        OutputVrrDecision::Unsupported
    );
    let two = OutputVrrEligibility { opaque_fullscreen_surface_count: 2, ..eligible };
    assert_eq!(decide_output_vrr(true, capable, two), OutputVrrDecision::Ineligible);
    let overlaid = OutputVrrEligibility { overlays_present: true, ..eligible };
    assert_eq!(decide_output_vrr(true, capable, overlaid), OutputVrrDecision::Ineligible);
}
