use sophia_engine::engine::{EngineError, HeadlessEngine, LayoutTransaction, SurfacePlacement, SurfaceSizeRequest};
use sophia_engine::frame_plan::{EngineBackend, FramePlanRequest};
use sophia_engine::frame::{
    explicit_sync_surfaces, layout_epoch_for_explicit_sync, surface_transaction_readiness_for_epoch,
    LayoutEpochState,
};
use sophia_engine::output::HeadlessOutput;
use sophia_engine::protocol::{
    BufferSource, CommittedSurfaceState, LayerSnapshot, OutputId, Rect, Region, ResizeSyncCapability, Size, SurfaceId,
    SurfaceTransaction, SurfaceTransactionReadiness, TransactionId, WorkspaceId,
};
use sophia_engine::scene::{
    authority_intakes_from_observed_batches, input_layers, layer_templates_from_surface_transactions,
    layout_nodes_from_layers, output_bounds, rect_is_within, seed_committed_states_for_transactions,
    seed_committed_surfaces, validate_live_wm_transaction, LiveWmTransactionError,
    XAuthorityObservedTransactionBatch, OPACITY_ONE_BITS,
};

fn rect(x: i32, y: i32, width: i32, height: i32) -> Rect {
    Rect { x, y, width, height }
}

fn transaction(surface: SurfaceId, previous: u64, geometry: Rect, handle: u64) -> SurfaceTransaction {
    SurfaceTransaction {
        transaction: TransactionId::from_raw(3),
        surface,
        previous_committed_generation: previous,
        target_geometry: geometry,
        target_buffer: BufferSource::XPixmap { handle },
        damage: Region::single(geometry),
        readiness: SurfaceTransactionReadiness::Ready,
    }
}

fn layer(surface: SurfaceId, resize_sync: ResizeSyncCapability) -> LayerSnapshot {
    LayerSnapshot {
        surface,
        window: None,
        stack_rank: 0,
        geometry: rect(10, 20, 300, 200),
        source: BufferSource::CpuBuffer { handle: 1 },
        damage: Region::empty(),
        crop: None,
        opacity_bits: OPACITY_ONE_BITS,
        generation: 4,
        resize_sync,
    }
}

fn placement(surface: SurfaceId, geometry: Rect) -> SurfacePlacement {
    SurfacePlacement { surface, geometry, z_index: 0, crop: None }
}

fn live_layout(placements: Vec<SurfacePlacement>, sizes: Vec<SurfaceSizeRequest>, focus: Option<SurfaceId>) -> LayoutTransaction {
    LayoutTransaction {
        transaction: TransactionId::from_raw(8),
        render_positions: placements,
        requested_sizes: sizes,
        focus,
        timeout_msec: 250,
    }
}

#[test]
fn seeded_surfaces_are_sorted_and_taken_from_the_first_transaction() {
    let a = SurfaceId::new(4, 1);
    let b = SurfaceId::new(2, 1);
    let batch = vec![
        transaction(a, 6, rect(0, 0, 10, 10), 1),
        transaction(b, 2, rect(5, 5, 20, 20), 2),
        transaction(a, 7, rect(1, 1, 30, 30), 3),
    ];
    let seeded = seed_committed_surfaces(&batch);
    assert_eq!(seeded.len(), 2);
    assert_eq!(seeded[0].surface, b);
    assert_eq!(seeded[0].committed_generation, 2);
    assert_eq!(seeded[1].surface, a);
    assert_eq!(seeded[1].committed_generation, 6);
    assert_eq!(seeded[1].geometry, rect(0, 0, 10, 10));
    assert_eq!(seeded[1].buffer, BufferSource::XPixmap { handle: 1 });
    assert!(seeded[1].damage.rects.is_empty());

    let every = seed_committed_states_for_transactions(&batch);
    assert_eq!(every.len(), 3);
    assert_eq!(every[2].committed_generation, 7);
    assert_eq!(every[2].surface, a);
}

#[test]
fn input_layers_stack_committed_states_in_order() {
    let committed = vec![
        CommittedSurfaceState {
            surface: SurfaceId::new(1, 1),
            committed_generation: 3,
            geometry: rect(0, 0, 64, 64),
            buffer: BufferSource::DmaBuf { handle: 9 },
            damage: Region::single(rect(0, 0, 8, 8)),
        },
        CommittedSurfaceState {
            surface: SurfaceId::new(2, 1),
            committed_generation: 1,
            geometry: rect(64, 0, 64, 64),
            buffer: BufferSource::CpuBuffer { handle: 2 },
            damage: Region::empty(),
        },
    ];
    let layers = input_layers(&committed);
    assert_eq!(layers.len(), 2);
    assert_eq!(layers[0].stack_rank, 0);
    assert_eq!(layers[1].stack_rank, 1);
    assert_eq!(layers[0].source, BufferSource::DmaBuf { handle: 9 });
    assert_eq!(layers[0].damage.rects, vec![rect(0, 0, 8, 8)]);
    assert_eq!(layers[0].generation, 3);
    assert_eq!(layers[1].opacity_bits, OPACITY_ONE_BITS);
    assert_eq!(layers[1].resize_sync, ResizeSyncCapability::ImplicitOnly);
}

#[test]
fn layer_templates_carry_no_buffer_yet() {
    let surface = SurfaceId::new(1, 1);
    let templates = layer_templates_from_surface_transactions(&[transaction(surface, 5, rect(1, 2, 3, 4), 7)]);
    assert_eq!(templates.len(), 1);
    assert_eq!(templates[0].source, BufferSource::Absent);
    assert_eq!(templates[0].generation, 5);
    assert_eq!(templates[0].geometry, rect(1, 2, 3, 4));
    assert_eq!(templates[0].damage.rects, vec![rect(1, 2, 3, 4)]);
}

#[test]
fn observed_batches_become_intakes_in_order() {
    let surface = SurfaceId::new(1, 1);
    let batches = vec![
        XAuthorityObservedTransactionBatch { transaction: TransactionId::from_raw(1), transactions: Vec::new() },
        XAuthorityObservedTransactionBatch {
            transaction: TransactionId::from_raw(2),
            transactions: vec![transaction(surface, 0, rect(0, 0, 1, 1), 1)],
        },
    ];
    let intakes = authority_intakes_from_observed_batches(batches);
    assert_eq!(intakes.len(), 2);
    assert_eq!(intakes[0].transaction, TransactionId::from_raw(1));
    assert_eq!(intakes[1].transaction, TransactionId::from_raw(2));
    assert_eq!(intakes[1].transactions.len(), 1);
}

#[test]
fn layout_nodes_describe_each_layer_as_a_toplevel() {
    let workspace = WorkspaceId::from_raw(3);
    let nodes = layout_nodes_from_layers(
        &[layer(SurfaceId::new(1, 1), ResizeSyncCapability::ImplicitOnly)],
        workspace,
    );
    assert_eq!(nodes.len(), 1);
    assert_eq!(nodes[0].workspace, workspace);
    assert_eq!(nodes[0].geometry, rect(10, 20, 300, 200));
    assert_eq!(nodes[0].generation, 4);
    assert!(nodes[0].capabilities.closable && nodes[0].capabilities.movable);
}

#[test]
fn rect_within_bounds_refuses_overflowing_edges() {
    let bounds = output_bounds(HeadlessOutput::default());
    assert_eq!(bounds, rect(0, 0, 1280, 720));
    assert!(rect_is_within(bounds, rect(0, 0, 1280, 720)));
    assert!(!rect_is_within(bounds, rect(1, 0, 1280, 720)));
    assert!(!rect_is_within(bounds, rect(-1, 0, 10, 10)));
    assert!(!rect_is_within(bounds, rect(i32::MAX, 0, 1, 1)));
}

#[test]
fn live_wm_transactions_are_checked_in_order() {
    let known = [SurfaceId::new(1, 1)];
    let bounds = rect(0, 0, 1280, 720);
    let good = live_layout(
        vec![placement(known[0], rect(0, 0, 640, 480))],
        vec![SurfaceSizeRequest { surface: known[0], size: Size { width: 640, height: 480 } }],
        Some(known[0]),
    );
    assert_eq!(validate_live_wm_transaction(&good, &known, bounds), Ok(()));

    let outside = live_layout(vec![placement(known[0], rect(700, 0, 640, 480))], Vec::new(), None);
    assert_eq!(
        validate_live_wm_transaction(&outside, &known, bounds),
        Err(LiveWmTransactionError::InvalidPlacement)
    );
    let stranger = live_layout(vec![placement(SurfaceId::new(9, 1), rect(0, 0, 10, 10))], Vec::new(), None);
    assert_eq!(
        validate_live_wm_transaction(&stranger, &known, bounds),
        Err(LiveWmTransactionError::InvalidPlacement)
    );
    let huge = live_layout(
        Vec::new(),
        vec![SurfaceSizeRequest { surface: known[0], size: Size { width: 65536, height: 10 } }],
        None,
    );
    assert_eq!(
        validate_live_wm_transaction(&huge, &known, bounds),
        Err(LiveWmTransactionError::InvalidSizeRequest)
    );
    let focus = live_layout(Vec::new(), Vec::new(), Some(SurfaceId::new(2, 1)));
    assert_eq!(validate_live_wm_transaction(&focus, &known, bounds), Err(LiveWmTransactionError::UnknownFocus));
}

#[test]
fn explicit_sync_layers_open_a_layout_epoch() {
    let a = SurfaceId::new(3, 1);
    let b = SurfaceId::new(1, 1);
    let layers = [
        layer(a, ResizeSyncCapability::ExplicitSync),
        layer(SurfaceId::new(2, 1), ResizeSyncCapability::ImplicitOnly),
        layer(b, ResizeSyncCapability::ExplicitSync),
        layer(SurfaceId::invalid(), ResizeSyncCapability::ExplicitSync),
        layer(a, ResizeSyncCapability::ExplicitSync),
    ];
    assert_eq!(explicit_sync_surfaces(&layers), vec![b, a]);

    let epoch = layout_epoch_for_explicit_sync(5, 100, 40, &layers).expect("an epoch");
    assert_eq!(epoch.pending_surfaces(), vec![b, a]);
    assert_eq!(epoch.started_msec(), 100);
    assert_eq!(epoch.timeout_msec(), 40);
    assert_eq!(surface_transaction_readiness_for_epoch(a, Some(&epoch)), SurfaceTransactionReadiness::Pending);
    assert_eq!(
        surface_transaction_readiness_for_epoch(SurfaceId::new(2, 1), Some(&epoch)),
        SurfaceTransactionReadiness::Ready
    );
    assert_eq!(surface_transaction_readiness_for_epoch(a, None), SurfaceTransactionReadiness::Ready);

    let implicit = [layer(SurfaceId::new(2, 1), ResizeSyncCapability::ImplicitOnly)];
    assert!(layout_epoch_for_explicit_sync(5, 100, 40, &implicit).is_none());
}

#[test]
fn layout_epoch_expires_once_its_deadline_passes() {
    let a = SurfaceId::new(1, 1);
    let mut epoch = LayoutEpochState::with_timing(2, &[a], 100, 40);
    assert_eq!(epoch.elapsed_msec(50), 0);
    assert!(epoch.expire_if_timed_out(139).is_none());
    assert!(!epoch.is_complete());
    let timeout = epoch.expire_if_timed_out(140).expect("a timeout");
    assert_eq!(timeout.epoch, 2);
    assert_eq!(timeout.elapsed_msec, 40);
    assert_eq!(timeout.timeout_msec, 40);
    assert_eq!(timeout.pending_surfaces, vec![a]);
    assert!(epoch.is_complete());
    assert!(epoch.expire_if_timed_out(1000).is_none());
}

fn plan_and_replay<B: EngineBackend>(backend: &B, layers: Vec<LayerSnapshot>) -> (usize, usize) {
    let request = FramePlanRequest { output: backend.output().id, frame_serial: 4 };
    let frame = backend.plan_frame(request, layers).unwrap();
    let replay = backend.replay_frame(&frame).unwrap();
    (frame.commands.len(), replay.steps.len())
}

#[test]
fn engine_backend_plans_and_replays_through_the_trait() {
    let engine = HeadlessEngine::default();
    let layers = vec![
        layer(SurfaceId::new(1, 1), ResizeSyncCapability::ImplicitOnly),
        layer(SurfaceId::new(2, 1), ResizeSyncCapability::ImplicitOnly),
    ];
    assert_eq!(plan_and_replay(&engine, layers), (2, 2));
    assert_eq!(EngineBackend::output(&engine), HeadlessOutput::default());
    let request = FramePlanRequest { output: OutputId::from_raw(9), frame_serial: 1 };
    assert_eq!(EngineBackend::plan_frame(&engine, request, Vec::new()), Err(EngineError::InvalidOutput));
}
