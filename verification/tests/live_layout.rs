use sophia_engine::engine::{LayoutTransaction, SurfacePlacement, SurfaceSizeRequest};
use sophia_engine::live_layout::{
    LiveWmProposalError, PersistentLiveLayout, SizeProgress, WmTransactionMinter,
    MAX_LIVE_WM_COMMANDS,
};
use sophia_engine::wm::WmRequestKind;
use sophia_engine::output::HeadlessOutput;
use sophia_engine::protocol::{
    BufferSource, Rect, Region, Size, SurfaceId, SurfaceTransaction, SurfaceTransactionReadiness,
    TransactionId, TransactionOutcome,
};
use sophia_engine::scene::{LiveWmTransactionError, XAuthorityObservedTransactionBatch};

fn shown(surface: SurfaceId, x: i32, width: i32, height: i32, generation: u64) -> SurfaceTransaction {
    SurfaceTransaction {
        transaction: TransactionId::from_raw(1),
        surface,
        previous_committed_generation: generation,
        target_geometry: Rect {
            x,
            y: 10,
            width,
            height,
        },
        target_buffer: BufferSource::XPixmap { handle: 40 + generation },
        damage: Region::single(Rect {
            x: 0,
            y: 0,
            width,
            height,
        }),
        readiness: SurfaceTransactionReadiness::Ready,
    }
}

fn batch(transactions: Vec<SurfaceTransaction>) -> XAuthorityObservedTransactionBatch {
    XAuthorityObservedTransactionBatch {
        transaction: TransactionId::from_raw(1),
        transactions,
    }
}

fn layout_placing(
    transaction: u64,
    surface: SurfaceId,
    geometry: Rect,
    sizes: Vec<SurfaceSizeRequest>,
    timeout_msec: u32,
) -> LayoutTransaction {
    LayoutTransaction {
        transaction: TransactionId::from_raw(transaction),
        render_positions: vec![SurfacePlacement {
            surface,
            geometry,
            z_index: 2,
            crop: None,
        }],
        requested_sizes: sizes,
        focus: Some(surface),
        timeout_msec,
    }
}

fn rect(x: i32, y: i32, width: i32, height: i32) -> Rect {
    Rect { x, y, width, height }
}

#[test]
fn new_surfaces_are_staged_and_left_for_the_window_manager() {
    let mut layout = PersistentLiveLayout::new(true);
    let a = SurfaceId::new(5, 1);
    let b = SurfaceId::new(2, 1);

    let new_surfaces = layout.observe_authority_batch(&batch(vec![
        shown(a, 100, 300, 200, 0),
        shown(b, 0, 200, 100, 0),
    ]));

    assert_eq!(new_surfaces, vec![a, b]);
    assert_eq!(layout.known_surfaces(), vec![b, a]);
    let layer_a = layout.layer(a).unwrap();
    assert_eq!(layer_a.geometry, rect(180, 70, 300, 200));
    assert_eq!(layer_a.stack_rank, 0);
    assert_eq!(layer_a.generation, 1);
    assert_eq!(layout.layer(b).unwrap().stack_rank, 1);
    assert_eq!(layout.take_unmanaged_surfaces(), vec![b, a]);
    assert!(layout.take_unmanaged_surfaces().is_empty());
}

#[test]
fn known_surfaces_keep_their_placement_when_content_changes() {
    let mut layout = PersistentLiveLayout::new(false);
    let a = SurfaceId::new(1, 1);
    layout.observe_authority_batch(&batch(vec![shown(a, 20, 300, 200, 0)]));

    let new_surfaces = layout.observe_authority_batch(&batch(vec![shown(a, 500, 640, 480, 7)]));

    assert!(new_surfaces.is_empty());
    let layer = layout.layer(a).unwrap();
    assert_eq!(layer.geometry, rect(20, 10, 300, 200));
    assert_eq!(layer.generation, 8);
    assert_eq!(layer.source, BufferSource::XPixmap { handle: 47 });
}

#[test]
fn proposal_checks_command_count_and_placements() {
    let mut layout = PersistentLiveLayout::new(false);
    let a = SurfaceId::new(1, 1);
    layout.observe_authority_batch(&batch(vec![shown(a, 0, 300, 200, 0)]));
    let output = HeadlessOutput::deterministic();
    let inside = layout_placing(3, a, rect(10, 10, 400, 300), Vec::new(), 250);

    assert_eq!(
        layout.propose(&inside, MAX_LIVE_WM_COMMANDS + 1, output),
        Err(LiveWmProposalError::TooManyCommands)
    );
    let unknown = layout_placing(3, SurfaceId::new(9, 1), rect(10, 10, 400, 300), Vec::new(), 250);
    assert_eq!(
        layout.propose(&unknown, 1, output),
        Err(LiveWmProposalError::Invalid(LiveWmTransactionError::InvalidPlacement))
    );
    let outside = layout_placing(3, a, rect(1000, 10, 400, 300), Vec::new(), 250);
    assert_eq!(
        layout.propose(&outside, 1, output),
        Err(LiveWmProposalError::Invalid(LiveWmTransactionError::InvalidPlacement))
    );

    let proposal = layout.propose(&inside, 1, output).unwrap();
    assert_eq!(proposal.layers[0].geometry, rect(10, 10, 400, 300));
    assert_eq!(proposal.moved_surfaces, 1);
    assert_eq!(proposal.update.commit.outcome, TransactionOutcome::Committed);
    assert_eq!(proposal.update.commit.applied_surfaces, vec![a]);
    assert_eq!(proposal.timeout_msec, 250);
    assert_eq!(layout.layer(a).unwrap().geometry, rect(0, 10, 300, 200));
}

#[test]
fn proposal_sorts_size_requests_and_bounds_the_timeout() {
    let mut layout = PersistentLiveLayout::new(false);
    let a = SurfaceId::new(1, 1);
    let b = SurfaceId::new(4, 1);
    layout.observe_authority_batch(&batch(vec![shown(b, 0, 300, 200, 0), shown(a, 0, 300, 200, 0)]));
    let transaction = layout_placing(
        4,
        a,
        rect(0, 10, 300, 200),
        vec![
            SurfaceSizeRequest { surface: b, size: Size { width: 10, height: 10 } },
            SurfaceSizeRequest { surface: a, size: Size { width: 20, height: 20 } },
            SurfaceSizeRequest { surface: b, size: Size { width: 30, height: 30 } },
        ],
        5_000,
    );

    let proposal = layout
        .propose(&transaction, 3, HeadlessOutput::deterministic())
        .unwrap();

    assert_eq!(
        proposal.requested_sizes,
        vec![
            SurfaceSizeRequest { surface: a, size: Size { width: 20, height: 20 } },
            SurfaceSizeRequest { surface: b, size: Size { width: 30, height: 30 } },
        ]
    );
    assert_eq!(proposal.timeout_msec, 2_000);
    assert_eq!(proposal.moved_surfaces, 0);
}

#[test]
fn layout_waits_for_requested_sizes_then_commits() {
    let mut layout = PersistentLiveLayout::new(false);
    let a = SurfaceId::new(1, 1);
    layout.observe_authority_batch(&batch(vec![shown(a, 0, 300, 200, 0)]));
    let transaction = layout_placing(
        5,
        a,
        rect(40, 30, 640, 480),
        vec![SurfaceSizeRequest { surface: a, size: Size { width: 640, height: 480 } }],
        300,
    );
    let proposal = layout
        .propose(&transaction, 2, HeadlessOutput::deterministic())
        .unwrap();
    let proposal = layout.unconfirmed_sizes(proposal);
    assert_eq!(proposal.requested_sizes.len(), 1);

    assert!(layout.stage_acknowledged(proposal, 1_000).is_none());
    assert!(layout.has_pending());
    assert!(layout.resolve_pending().is_none());
    assert_eq!(layout.layer(a).unwrap().geometry, rect(0, 10, 300, 200));

    layout.observe_authority_batch(&batch(vec![shown(a, 0, 640, 480, 1)]));
    let commit = layout.resolve_pending().unwrap();

    assert_eq!(commit.update.commit.outcome, TransactionOutcome::Committed);
    assert_eq!(commit.surfaces, 1);
    assert_eq!(commit.configure_acks, 1);
    assert!(!layout.has_pending());
    assert_eq!(layout.layer(a).unwrap().geometry, rect(40, 30, 640, 480));
    assert_eq!(
        layout.take_focus_to_apply(),
        Some((TransactionId::from_raw(5), a))
    );
    assert_eq!(layout.take_focus_to_apply(), None);
}

#[test]
fn layout_commits_at_once_when_sizes_are_already_reported() {
    let mut layout = PersistentLiveLayout::new(false);
    let a = SurfaceId::new(1, 1);
    layout.observe_authority_batch(&batch(vec![shown(a, 0, 300, 200, 0)]));
    let transaction = layout_placing(
        6,
        a,
        rect(5, 5, 300, 200),
        vec![SurfaceSizeRequest { surface: a, size: Size { width: 300, height: 200 } }],
        300,
    );
    let proposal = layout
        .propose(&transaction, 2, HeadlessOutput::deterministic())
        .unwrap();
    let proposal = layout.unconfirmed_sizes(proposal);
    assert!(proposal.requested_sizes.is_empty());

    let commit = layout.stage_acknowledged(proposal, 0).unwrap();

    assert_eq!(commit.configure_acks, 0);
    assert_eq!(commit.moved_surfaces, 1);
    assert_eq!(layout.layer(a).unwrap().geometry, rect(5, 5, 300, 200));
}

#[test]
fn expired_layout_preserves_layers_and_reports_sizes() {
    let mut layout = PersistentLiveLayout::new(false);
    let a = SurfaceId::new(1, 1);
    layout.observe_authority_batch(&batch(vec![shown(a, 0, 300, 200, 0)]));
    let transaction = layout_placing(
        7,
        a,
        rect(40, 30, 640, 480),
        vec![SurfaceSizeRequest { surface: a, size: Size { width: 640, height: 480 } }],
        100,
    );
    let proposal = layout
        .propose(&transaction, 2, HeadlessOutput::deterministic())
        .unwrap();
    assert!(layout.stage_acknowledged(proposal, 1_000).is_none());

    assert!(layout.expire_pending(1_099).is_none());
    let timeout = layout.expire_pending(1_100).unwrap();

    assert_eq!(timeout.transaction, TransactionId::from_raw(7));
    assert_eq!(timeout.update.commit.outcome, TransactionOutcome::TimedOut);
    assert!(timeout.update.commit.applied_surfaces.is_empty());
    assert_eq!(
        timeout.resize_state,
        vec![SizeProgress {
            surface: a,
            expected: Size { width: 640, height: 480 },
            observed: Size { width: 300, height: 200 },
        }]
    );
    assert!(!layout.has_pending());
    assert_eq!(layout.layer(a).unwrap().geometry, rect(0, 10, 300, 200));
    assert!(layout.expire_pending(5_000).is_none());
}

#[test]
fn projected_batch_shows_surfaces_where_the_layout_placed_them() {
    let mut layout = PersistentLiveLayout::new(true);
    let a = SurfaceId::new(1, 1);
    let stranger = SurfaceId::new(8, 1);
    layout.observe_authority_batch(&batch(vec![shown(a, 0, 300, 200, 0)]));

    let projected = layout.projected_batch(&batch(vec![
        shown(a, 0, 300, 200, 1),
        shown(stranger, 7, 50, 50, 0),
    ]));

    assert_eq!(projected.transactions[0].target_geometry, rect(80, 70, 300, 200));
    assert_eq!(projected.transactions[0].previous_committed_generation, 1);
    assert_eq!(projected.transactions[1].target_geometry, rect(7, 10, 50, 50));
}

#[test]
fn ordered_layers_follow_surface_order() {
    let mut layout = PersistentLiveLayout::new(false);
    assert!(layout.is_empty());
    let a = SurfaceId::new(3, 2);
    let b = SurfaceId::new(3, 1);
    let c = SurfaceId::new(1, 9);
    layout.observe_authority_batch(&batch(vec![
        shown(a, 0, 10, 10, 0),
        shown(b, 0, 10, 10, 0),
        shown(c, 0, 10, 10, 0),
    ]));

    let surfaces: Vec<SurfaceId> = layout.ordered_layers().iter().map(|l| l.surface).collect();

    assert_eq!(surfaces, vec![c, b, a]);
    assert!(layout.contains(b));
    assert!(!layout.contains(SurfaceId::new(3, 3)));
    assert!(!layout.is_empty());
}

#[test]
fn minted_transactions_count_up_from_one() {
    let mut minter = WmTransactionMinter::new();

    assert_eq!(minter.mint(), Some(TransactionId::from_raw(1)));
    assert_eq!(minter.mint(), Some(TransactionId::from_raw(2)));
}

#[test]
fn window_manager_requests_describe_the_live_layers() {
    let mut layout = PersistentLiveLayout::new(false);
    let a = SurfaceId::new(2, 1);
    let b = SurfaceId::new(1, 1);
    layout.observe_authority_batch(&batch(vec![shown(a, 5, 300, 200, 0), shown(b, 7, 100, 50, 3)]));
    let output = HeadlessOutput::deterministic();

    let manage = layout
        .manage_request(a, output, TransactionId::from_raw(9))
        .unwrap();
    assert_eq!(manage.transaction, TransactionId::from_raw(9));
    let WmRequestKind::ManageSurface(manage) = manage.kind else {
        panic!("expected a manage request");
    };
    assert_eq!(manage.node.surface, a);
    assert_eq!(manage.node.geometry, rect(5, 10, 300, 200));
    assert_eq!(manage.bounds, rect(0, 0, 1280, 720));
    assert!(layout
        .manage_request(SurfaceId::new(9, 9), output, TransactionId::from_raw(10))
        .is_none());

    let relayout = layout.relayout_request(output, TransactionId::from_raw(11));
    let WmRequestKind::RelayoutWorkspace(relayout) = relayout.kind else {
        panic!("expected a relayout request");
    };
    assert_eq!(relayout.nodes.len(), 2);
    assert_eq!(relayout.nodes[0].surface, b);
    assert_eq!(relayout.nodes[0].generation, 4);
    assert_eq!(relayout.nodes[1].surface, a);
}
