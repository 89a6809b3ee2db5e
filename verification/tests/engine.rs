use sophia_engine::chrome::{
    AttentionState, ChromeActionDecision, ChromeActionKind, ChromeActionRejectReason,
    ChromeActionRequest, ChromeBroker, ChromeDescriptor, DisplayLabel, IconTokenId,
    LayoutNodeCapabilities, LayoutNodeKind, LayoutNodeSnapshot, MetadataChromeRejectReason,
    MetadataChromeUpdate, SanitizedChromeMetadata, TrustLevel,
};
use sophia_engine::engine::{
    EngineError, HeadlessEngine, LayoutTransaction, SophiaErrorKind, SurfacePlacement,
};
use sophia_engine::frame::{
    measure_resize_behavior, schedule_frame_from_damage, DeterministicFrameClock, FrameClock,
    FrameClockTick, FrameScheduleDecision, LayoutEpochState,
};
use sophia_engine::frame_plan::FramePlanRequest;
use sophia_engine::notification::{
    notification_chrome_command_from_portal, NotificationChromePresenter,
    NotificationChromeRejectReason, NotificationChromeUpdate, NotificationRequest,
    NotificationUrgency, PortalCommand,
};
use sophia_engine::output::{
    DrmKmsMode, DrmKmsOutputDescriptor, DrmKmsOutputRegistry, DrmKmsOutputRegistryUpdate,
    MAX_DRM_KMS_OUTPUTS,
};
use sophia_engine::protocol::{
    BufferSource, DamageFrame, LayerSnapshot, OutputId, PortalTransferId, Rect, Region,
    ResizeSyncCapability, Size, SurfaceId, TransactionId, TransactionOutcome, WorkspaceId,
};
use sophia_engine::session::{
    LastCommittedLayout, SessionCommand, SessionEvent, SessionLayerSource, SessionTickRequest,
};
use sophia_engine::wm::{
    IpcCodecError, WmIpcError, WmRequestKind, WmRestartReason, WmRuntimeAction,
};

const OPACITY_ONE: u32 = 0x3f80_0000;

fn test_layer(surface_index: u32, stack_rank: u32, x: i32, damage: Region) -> LayerSnapshot {
    LayerSnapshot {
        surface: SurfaceId::new(surface_index, 1),
        window: None,
        stack_rank,
        geometry: Rect {
            x,
            y: 0,
            width: 100,
            height: 100,
        },
        source: BufferSource::CpuBuffer {
            handle: u64::from(surface_index) + 1,
        },
        damage,
        crop: None,
        opacity_bits: OPACITY_ONE,
        generation: 1,
        resize_sync: ResizeSyncCapability::ImplicitOnly,
    }
}

fn placement(surface: SurfaceId, x: i32, y: i32, width: i32, height: i32, z_index: i32) -> SurfacePlacement {
    SurfacePlacement {
        surface,
        geometry: Rect {
            x,
            y,
            width,
            height,
        },
        z_index,
        crop: None,
    }
}

fn layout(transaction: u64, focus: Option<SurfaceId>, placements: Vec<SurfacePlacement>) -> LayoutTransaction {
    LayoutTransaction {
        transaction: TransactionId::from_raw(transaction),
        render_positions: placements,
        requested_sizes: Vec::new(),
        focus,
        timeout_msec: 300,
    }
}

fn frame_tick(frame_serial: u64) -> FrameClockTick {
    FrameClockTick {
        output: OutputId::from_raw(1),
        frame_serial,
        target_msec: frame_serial * 16,
    }
}

fn damage_frame(frame_serial: u64, affected_surfaces: &[SurfaceId]) -> DamageFrame {
    DamageFrame {
        output: OutputId::from_raw(1),
        frame_serial,
        buffer_age: 1,
        root_generation: frame_serial,
        affected_surfaces: affected_surfaces.to_vec(),
        damage: Region::single(Rect {
            x: 0,
            y: 0,
            width: 10,
            height: 10,
        }),
    }
}

fn metadata(surface: SurfaceId, label: &str, generation: u64) -> SanitizedChromeMetadata {
    SanitizedChromeMetadata {
        surface,
        label: Some(label.to_owned()),
        label_redacted: true,
        icon: None,
        trust_level: TrustLevel::Unknown,
        attention: AttentionState::Quiet,
        generation,
    }
}

fn notification_request(raw_transfer: u64) -> NotificationRequest {
    NotificationRequest {
        transfer: PortalTransferId::from_raw(raw_transfer),
        summary: "Build finished".to_owned(),
        body: Some("Sophia smoke completed".to_owned()),
        urgency: NotificationUrgency::Normal,
        actions: vec!["Open log".to_owned()],
        generation: 7,
    }
}

fn layout_node(surface: SurfaceId, generation: u64, closable: bool) -> LayoutNodeSnapshot {
    let mut capabilities = LayoutNodeCapabilities::standard_toplevel();
    capabilities.closable = closable;
    LayoutNodeSnapshot {
        surface,
        workspace: WorkspaceId::from_raw(1),
        kind: LayoutNodeKind::Toplevel,
        capabilities,
        geometry: Rect {
            x: 0,
            y: 0,
            width: 100,
            height: 100,
        },
        generation,
    }
}

fn descriptor(raw: u64, connector_id: u32, crtc_id: u32, mode: DrmKmsMode, scale: u32) -> DrmKmsOutputDescriptor {
    DrmKmsOutputDescriptor {
        output: OutputId::from_raw(raw),
        connector_id,
        crtc_id,
        mode,
        scale,
    }
}

fn check_deterministic_output() {
    let engine = HeadlessEngine::default();
    let output = engine.output();

    assert_eq!(output.id, OutputId::from_raw(1));
    assert_eq!(
        output.size,
        Size {
            width: 1280,
            height: 720,
        }
    );
    assert_eq!(output.scale, 1);
}

#[test]
fn backend_headless_engine_exposes_deterministic_output() {
    check_deterministic_output();
}

#[test]
fn engine_headless_engine_exposes_deterministic_output() {
    check_deterministic_output();
}

fn check_registry_tracks_connector_mode_and_scale() {
    let descriptor = descriptor(7, 42, 99, DrmKmsMode::new(1920, 1080, 60_000), 2);
    let mut registry = DrmKmsOutputRegistry::new();

    registry.upsert(descriptor);

    assert_eq!(registry.get(OutputId::from_raw(7)), Some(descriptor));
    assert_eq!(registry.outputs().len(), 1);
    assert_eq!(
        registry.primary_engine_output(),
        Some(descriptor.as_engine_output())
    );
    assert_eq!(
        descriptor.as_engine_output().size,
        Size {
            width: 1920,
            height: 1080,
        }
    );
    assert_eq!(descriptor.as_engine_output().scale, 2);
    assert_eq!(registry.remove(OutputId::from_raw(7)), Some(descriptor));
    assert!(registry.primary_engine_output().is_none());
}

#[test]
fn backend_drm_kms_output_registry_tracks_connector_mode_and_scale() {
    check_registry_tracks_connector_mode_and_scale();
}

#[test]
fn engine_drm_kms_output_registry_tracks_connector_mode_and_scale() {
    check_registry_tracks_connector_mode_and_scale();
}

#[test]
fn drm_kms_output_registry_rejects_unbounded_output_growth() {
    let mut registry = DrmKmsOutputRegistry::new();
    for index in 0..MAX_DRM_KMS_OUTPUTS {
        let raw = u64::try_from(index + 1).unwrap();
        assert_eq!(
            registry.upsert(descriptor(
                raw,
                u32::try_from(raw).unwrap(),
                u32::try_from(raw + 100).unwrap(),
                DrmKmsMode::new(1920, 1080, 60_000),
                1,
            )),
            DrmKmsOutputRegistryUpdate::Inserted
        );
    }

    assert_eq!(registry.len(), MAX_DRM_KMS_OUTPUTS);
    assert_eq!(
        registry.upsert(descriptor(99, 99, 199, DrmKmsMode::new(1920, 1080, 60_000), 1)),
        DrmKmsOutputRegistryUpdate::CapacityExceeded
    );
}

#[test]
fn drm_kms_output_registry_replaces_known_output_at_capacity() {
    let mut registry = DrmKmsOutputRegistry::new();
    for raw in 1..=(MAX_DRM_KMS_OUTPUTS as u64) {
        registry.upsert(descriptor(raw, raw as u32, 0, DrmKmsMode::new(800, 600, 60_000), 1));
    }
    let replacement = descriptor(3, 3, 7, DrmKmsMode::new(1024, 768, 75_000), 2);

    assert_eq!(registry.upsert(replacement), DrmKmsOutputRegistryUpdate::Replaced);
    assert_eq!(registry.len(), MAX_DRM_KMS_OUTPUTS);
    assert_eq!(registry.get(OutputId::from_raw(3)), Some(replacement));
}

#[test]
fn drm_kms_primary_output_is_the_lowest_output_id() {
    let mut registry = DrmKmsOutputRegistry::new();
    let later = descriptor(9, 1, 1, DrmKmsMode::new(1920, 1080, 60_000), 1);
    let earlier = descriptor(4, 2, 2, DrmKmsMode::new(1280, 1024, 60_000), 1);
    registry.upsert(later);
    registry.upsert(earlier);

    assert_eq!(registry.primary_engine_output(), Some(earlier.as_engine_output()));
    assert_eq!(registry.outputs()[0], earlier);
    assert_eq!(registry.outputs()[1], later);
    assert_eq!(registry.remove(OutputId::from_raw(5)), None);
}

fn check_descriptor_can_seed_engine_output() {
    let descriptor = descriptor(8, 43, 100, DrmKmsMode::new(2560, 1440, 144_000), 1);
    let engine = HeadlessEngine::new(descriptor.as_engine_output());
    let frame = engine
        .plan_frame(
            FramePlanRequest {
                output: OutputId::from_raw(8),
                frame_serial: 1,
            },
            Vec::new(),
        )
        .unwrap();

    assert_eq!(frame.output_size, descriptor.mode.size);
    assert_eq!(frame.output_scale, descriptor.scale);
}

#[test]
fn backend_drm_kms_descriptor_can_seed_engine_output() {
    check_descriptor_can_seed_engine_output();
}

#[test]
fn engine_drm_kms_descriptor_can_seed_engine_output() {
    check_descriptor_can_seed_engine_output();
}

#[test]
fn headless_engine_returns_frame_value() {
    let engine = HeadlessEngine::default();
    let output = engine.output();
    let request = FramePlanRequest {
        output: output.id,
        frame_serial: 7,
    };
    let frame = engine.plan_frame(request, Vec::new()).unwrap();

    assert_eq!(frame.output, request.output);
    assert_eq!(frame.output_size, output.size);
    assert_eq!(frame.output_scale, output.scale);
    assert_eq!(frame.frame_serial, 7);
    assert!(frame.layers.is_empty());
    assert!(frame.commands.is_empty());
}

#[test]
fn frame_plan_rejects_unknown_output() {
    let engine = HeadlessEngine::default();
    let request = FramePlanRequest {
        output: OutputId::from_raw(2),
        frame_serial: 1,
    };

    assert_eq!(
        engine.plan_frame(request, Vec::new()),
        Err(EngineError::InvalidOutput)
    );
}

#[test]
fn frame_plan_sorts_layers_by_stack_rank() {
    let engine = HeadlessEngine::default();
    let request = FramePlanRequest {
        output: engine.output().id,
        frame_serial: 1,
    };
    let frame = engine
        .plan_frame(
            request,
            vec![
                test_layer(0, 20, 20, Region::empty()),
                test_layer(1, 10, 10, Region::empty()),
            ],
        )
        .unwrap();

    assert_eq!(frame.layers[0].stack_rank, 10);
    assert_eq!(frame.layers[1].stack_rank, 20);
    assert_eq!(frame.commands[0].source, Some(frame.layers[0].surface));
}

#[test]
fn frame_plan_keeps_input_order_for_equal_ranks() {
    let engine = HeadlessEngine::default();
    let request = FramePlanRequest {
        output: engine.output().id,
        frame_serial: 1,
    };
    let frame = engine
        .plan_frame(
            request,
            vec![
                test_layer(2, 5, 0, Region::empty()),
                test_layer(0, 1, 0, Region::empty()),
                test_layer(1, 5, 0, Region::empty()),
            ],
        )
        .unwrap();

    assert_eq!(frame.layers[0].surface, SurfaceId::new(0, 1));
    assert_eq!(frame.layers[1].surface, SurfaceId::new(2, 1));
    assert_eq!(frame.layers[2].surface, SurfaceId::new(1, 1));
}

#[test]
fn frame_plan_aggregates_layer_damage() {
    let engine = HeadlessEngine::default();
    let request = FramePlanRequest {
        output: engine.output().id,
        frame_serial: 1,
    };
    let frame = engine
        .plan_frame(
            request,
            vec![
                test_layer(
                    0,
                    0,
                    0,
                    Region::single(Rect {
                        x: 0,
                        y: 0,
                        width: 10,
                        height: 10,
                    }),
                ),
                test_layer(
                    1,
                    1,
                    100,
                    Region::single(Rect {
                        x: 100,
                        y: 0,
                        width: 5,
                        height: 5,
                    }),
                ),
            ],
        )
        .unwrap();

    assert_eq!(frame.damage.rects.len(), 2);
}

#[test]
fn frame_plan_rejects_stale_surface() {
    let engine = HeadlessEngine::default();
    let request = FramePlanRequest {
        output: engine.output().id,
        frame_serial: 1,
    };
    let mut layer = test_layer(0, 0, 0, Region::empty());
    layer.surface = SurfaceId::invalid();

    assert_eq!(
        engine.plan_frame(request, vec![layer]),
        Err(EngineError::InvalidSurface)
    );
}

#[test]
fn frame_snapshot_replays_with_mock_surfaces() {
    let engine = HeadlessEngine::default();
    let request = FramePlanRequest {
        output: engine.output().id,
        frame_serial: 11,
    };
    let frame = engine
        .plan_frame(
            request,
            vec![
                test_layer(0, 0, 0, Region::empty()),
                test_layer(1, 1, 100, Region::empty()),
            ],
        )
        .unwrap();

    let replay = engine.replay_frame(&frame).unwrap();

    assert_eq!(replay.output, engine.output().id);
    assert_eq!(replay.output_size, engine.output().size);
    assert_eq!(replay.output_scale, engine.output().scale);
    assert_eq!(replay.frame_serial, 11);
    assert_eq!(replay.steps.len(), 2);
    assert_eq!(replay.steps[0].source, Some(frame.layers[0].surface));
}

#[test]
fn frame_snapshot_replay_rejects_unknown_surface() {
    let engine = HeadlessEngine::default();
    let request = FramePlanRequest {
        output: engine.output().id,
        frame_serial: 12,
    };
    let mut frame = engine
        .plan_frame(request, vec![test_layer(0, 0, 0, Region::empty())])
        .unwrap();
    frame.commands[0].source = Some(SurfaceId::new(99, 1));

    assert_eq!(
        engine.replay_frame(&frame),
        Err(EngineError::InvalidSurface)
    );
}

#[test]
fn layout_transaction_moves_and_resizes_layers_atomically() {
    let engine = HeadlessEngine::default();
    let surface = SurfaceId::new(0, 1);
    let layers = vec![test_layer(0, 0, 0, Region::empty())];
    let transaction = layout(1, Some(surface), vec![placement(surface, 25, 30, 400, 300, 7)]);

    let committed = engine
        .apply_layout_transaction(&transaction, layers)
        .unwrap();

    assert_eq!(committed[0].geometry.x, 25);
    assert_eq!(committed[0].geometry.width, 400);
    assert_eq!(committed[0].stack_rank, 7);
    assert_eq!(committed[0].generation, 2);
    assert_eq!(committed[0].damage.rects.len(), 2);
}

#[test]
fn layout_transaction_rejects_unknown_surfaces() {
    let engine = HeadlessEngine::default();
    let transaction = layout(1, None, vec![placement(SurfaceId::new(99, 1), 0, 0, 10, 10, 0)]);

    assert_eq!(
        engine.apply_layout_transaction(&transaction, vec![test_layer(0, 0, 0, Region::empty())]),
        Err(EngineError::InvalidSurface)
    );
}

#[test]
fn layout_transaction_with_one_unknown_surface_moves_nothing() {
    let engine = HeadlessEngine::default();
    let known = SurfaceId::new(0, 1);
    let mut layers = vec![test_layer(0, 0, 0, Region::empty())];
    let before = layers.clone();
    let transaction = layout(
        3,
        None,
        vec![
            placement(known, 40, 40, 200, 200, 1),
            placement(SurfaceId::new(42, 1), 0, 0, 10, 10, 0),
        ],
    );

    let commit = engine.commit_layout_transaction(&transaction, &mut layers);

    assert_eq!(commit.outcome, TransactionOutcome::RejectedInvalidSurface);
    assert!(commit.applied_surfaces.is_empty());
    assert_eq!(layers, before);
}

#[test]
fn commit_layout_transaction_reports_outcome() {
    let engine = HeadlessEngine::default();
    let surface = SurfaceId::new(0, 1);
    let mut layers = vec![test_layer(0, 0, 0, Region::empty())];
    let mut p = placement(surface, 0, 0, 500, 400, 1);
    p.crop = Some(Rect {
        x: 0,
        y: 0,
        width: 250,
        height: 200,
    });
    let transaction = layout(44, Some(surface), vec![p]);

    let commit = engine.commit_layout_transaction(&transaction, &mut layers);

    assert_eq!(commit.transaction, TransactionId::from_raw(44));
    assert_eq!(commit.outcome, TransactionOutcome::Committed);
    assert_eq!(commit.applied_surfaces, vec![surface]);
    assert_eq!(
        layers[0].crop,
        Some(Rect {
            x: 0,
            y: 0,
            width: 250,
            height: 200,
        })
    );
}

#[test]
fn absent_wm_preserves_committed_layers() {
    let engine = HeadlessEngine::default();
    let layers = vec![test_layer(0, 0, 0, Region::empty())];
    let before = layers.clone();

    let commit = engine.preserve_layout_on_wm_absent(TransactionId::from_raw(45), &layers);

    assert_eq!(commit.transaction, TransactionId::from_raw(45));
    assert_eq!(commit.outcome, TransactionOutcome::TimedOut);
    assert!(commit.applied_surfaces.is_empty());
    assert_eq!(layers, before);
}

#[test]
fn wm_transaction_helper_commits_valid_response() {
    let engine = HeadlessEngine::default();
    let surface = SurfaceId::new(0, 1);
    let response = layout(50, None, vec![placement(surface, 50, 60, 700, 500, 3)]);
    let mut layers = vec![test_layer(0, 0, 0, Region::empty())];

    let update = engine.commit_wm_response(TransactionId::from_raw(50), Ok(response), &mut layers);

    assert_eq!(update.ipc_error, None);
    assert_eq!(update.commit.outcome, TransactionOutcome::Committed);
    assert_eq!(layers[0].geometry.x, 50);
    assert_eq!(layers[0].geometry.width, 700);
}

#[test]
fn wm_transaction_helper_preserves_layout_on_malformed_response() {
    let engine = HeadlessEngine::default();
    let transaction = TransactionId::from_raw(51);
    let mut layers = vec![test_layer(0, 0, 0, Region::empty())];
    let before = layers.clone();

    let update = engine.commit_wm_response(
        transaction,
        Err(WmIpcError::Codec(IpcCodecError::InvalidHeader)),
        &mut layers,
    );

    assert_eq!(update.commit.transaction, transaction);
    assert_eq!(update.commit.outcome, TransactionOutcome::TimedOut);
    assert!(matches!(
        update.ipc_error,
        Some(WmIpcError::Codec(IpcCodecError::InvalidHeader))
    ));
    assert_eq!(layers, before);
}

#[test]
fn wm_transaction_helper_preserves_layout_on_missing_response() {
    let engine = HeadlessEngine::default();
    let transaction = TransactionId::from_raw(52);
    let mut layers = vec![test_layer(0, 0, 0, Region::empty())];
    let before = layers.clone();

    let update = engine.commit_wm_response(
        transaction,
        Err(WmIpcError::Io("failed to fill whole buffer".to_owned())),
        &mut layers,
    );

    assert_eq!(update.commit.transaction, transaction);
    assert_eq!(update.commit.outcome, TransactionOutcome::TimedOut);
    assert!(matches!(update.ipc_error, Some(WmIpcError::Io(_))));
    assert_eq!(layers, before);
}

#[test]
fn wm_runtime_action_keeps_running_after_valid_response() {
    let engine = HeadlessEngine::default();
    let response = layout(60, None, Vec::new());
    let mut layers = vec![test_layer(0, 0, 0, Region::empty())];

    let update = engine.commit_wm_response(TransactionId::from_raw(60), Ok(response), &mut layers);

    assert_eq!(update.runtime_action(), WmRuntimeAction::KeepRunning);
}

#[test]
fn wm_runtime_action_restarts_after_ipc_failure() {
    let engine = HeadlessEngine::default();
    let mut layers = vec![test_layer(0, 0, 0, Region::empty())];

    let update = engine.commit_wm_response(
        TransactionId::from_raw(61),
        Err(WmIpcError::Io("closed".to_owned())),
        &mut layers,
    );

    assert!(matches!(
        update.runtime_action(),
        WmRuntimeAction::RestartWm {
            reason: WmRestartReason::IpcFailure(WmIpcError::Io(_))
        }
    ));
}

#[test]
fn wm_runtime_action_does_not_restart_for_valid_rejected_layout() {
    let engine = HeadlessEngine::default();
    let response = layout(62, None, vec![placement(SurfaceId::new(99, 1), 0, 0, 10, 10, 0)]);
    let mut layers = vec![test_layer(0, 0, 0, Region::empty())];

    let update = engine.commit_wm_response(TransactionId::from_raw(62), Ok(response), &mut layers);

    assert_eq!(
        update.commit.outcome,
        TransactionOutcome::RejectedInvalidSurface
    );
    assert_eq!(update.runtime_action(), WmRuntimeAction::KeepRunning);
}

#[test]
fn chrome_broker_keeps_metadata_separate_from_layout() {
    let mut broker = ChromeBroker::default();
    let surface = SurfaceId::new(3, 1);

    broker.upsert(ChromeDescriptor {
        surface,
        label: Some(DisplayLabel {
            text: "Redacted Title".to_owned(),
            redacted: true,
        }),
        icon: Some(IconTokenId { raw: 12 }),
        trust_level: TrustLevel::Isolated,
        attention: AttentionState::Quiet,
        generation: 4,
    });

    let descriptor = broker.get(surface).unwrap();

    assert_eq!(broker.len(), 1);
    assert_eq!(
        descriptor.label.as_ref().map(|label| label.redacted),
        Some(true)
    );
    assert_eq!(descriptor.icon, Some(IconTokenId { raw: 12 }));
    assert_eq!(descriptor.trust_level, TrustLevel::Isolated);
}

#[test]
fn chrome_broker_removes_surface_metadata() {
    let mut broker = ChromeBroker::default();
    let surface = SurfaceId::new(4, 1);

    broker.upsert(ChromeDescriptor {
        surface,
        label: None,
        icon: None,
        trust_level: TrustLevel::Unknown,
        attention: AttentionState::Quiet,
        generation: 1,
    });

    assert!(broker.remove_surface(surface).is_some());
    assert!(broker.get(surface).is_none());
    assert!(broker.is_empty());
}

#[test]
fn metadata_broker_output_updates_chrome_descriptor() {
    let mut broker = ChromeBroker::default();
    let surface = SurfaceId::new(5, 1);

    assert_eq!(
        broker.apply_metadata(SanitizedChromeMetadata {
            surface,
            label: Some("Untrusted Browser".to_owned()),
            label_redacted: true,
            icon: Some(IconTokenId { raw: 7 }),
            trust_level: TrustLevel::Untrusted,
            attention: AttentionState::Notice,
            generation: 3,
        }),
        MetadataChromeUpdate::Upserted { surface }
    );

    let descriptor = broker.get(surface).unwrap();
    assert_eq!(descriptor.surface, surface);
    assert_eq!(
        descriptor.label.as_ref(),
        Some(&DisplayLabel {
            text: "Untrusted Browser".to_owned(),
            redacted: true,
        })
    );
    assert_eq!(descriptor.icon, Some(IconTokenId { raw: 7 }));
    assert_eq!(descriptor.trust_level, TrustLevel::Untrusted);
    assert_eq!(descriptor.attention, AttentionState::Notice);
    assert_eq!(descriptor.generation, 3);
}

#[test]
fn metadata_broker_output_rejects_stale_generation() {
    let mut broker = ChromeBroker::default();
    let surface = SurfaceId::new(6, 1);

    broker.apply_metadata(metadata(surface, "Current", 9));
    let update = broker.apply_metadata(metadata(surface, "Old", 8));

    assert_eq!(
        update,
        MetadataChromeUpdate::Rejected(MetadataChromeRejectReason::StaleGeneration)
    );
    assert_eq!(
        broker
            .get(surface)
            .and_then(|descriptor| descriptor.label)
            .map(|label| label.text),
        Some("Current".to_owned())
    );
}

#[test]
fn metadata_broker_output_rejects_unsanitized_label() {
    let mut broker = ChromeBroker::default();
    let surface = SurfaceId::new(7, 1);
    let mut metadata = metadata(surface, "Bad\nTitle", 1);
    metadata.label_redacted = false;

    let update = broker.apply_metadata(metadata);

    assert_eq!(
        update,
        MetadataChromeUpdate::Rejected(MetadataChromeRejectReason::InvalidLabel)
    );
    assert!(broker.get(surface).is_none());
}

#[test]
fn metadata_broker_removal_clears_descriptor_with_generation_check() {
    let mut broker = ChromeBroker::default();
    let surface = SurfaceId::new(8, 1);

    broker.apply_metadata(metadata(surface, "Visible", 4));
    assert_eq!(
        broker.remove_metadata(surface, 3),
        MetadataChromeUpdate::Rejected(MetadataChromeRejectReason::StaleGeneration)
    );
    assert!(broker.get(surface).is_some());

    assert_eq!(
        broker.remove_metadata(surface, 4),
        MetadataChromeUpdate::Removed { surface }
    );
    assert!(broker.get(surface).is_none());
}

#[test]
fn notification_chrome_presents_only_after_delivery_command() {
    let mut presenter = NotificationChromePresenter::new();
    let request = notification_request(42);
    let transfer = request.transfer;

    assert_eq!(
        presenter.stage_request(&request),
        NotificationChromeUpdate::Staged { transfer }
    );
    assert!(presenter.pending(transfer).is_some());
    assert!(presenter.visible(transfer).is_none());

    let update = presenter.apply_portal_command(&PortalCommand::DeliverNotification { transfer });

    assert_eq!(update, NotificationChromeUpdate::Presented { transfer });
    assert!(presenter.pending(transfer).is_none());
    let visible = presenter.visible(transfer).unwrap();
    assert_eq!(visible.summary, "Build finished");
    assert_eq!(visible.body.as_deref(), Some("Sophia smoke completed"));
    assert_eq!(visible.urgency, NotificationUrgency::Normal);
}

#[test]
fn notification_chrome_drop_dismisses_pending_notification() {
    let mut presenter = NotificationChromePresenter::new();
    let request = notification_request(43);
    let transfer = request.transfer;

    presenter.stage_request(&request);
    let update = presenter.apply_portal_command(&PortalCommand::DropNotification { transfer });

    assert_eq!(update, NotificationChromeUpdate::Dismissed { transfer });
    assert!(presenter.pending(transfer).is_none());
    assert!(presenter.visible(transfer).is_none());
}

#[test]
fn notification_chrome_rejects_unknown_delivery() {
    let mut presenter = NotificationChromePresenter::new();
    let transfer = PortalTransferId::from_raw(99);

    let update = presenter.apply_portal_command(&PortalCommand::DeliverNotification { transfer });

    assert_eq!(
        update,
        NotificationChromeUpdate::Rejected(NotificationChromeRejectReason::UnknownTransfer)
    );
}

#[test]
fn notification_chrome_ignores_unrelated_portal_commands() {
    let transfer = PortalTransferId::from_raw(12);

    assert_eq!(
        notification_chrome_command_from_portal(&PortalCommand::HandoffClipboard { transfer }),
        None
    );
}

#[test]
fn notification_chrome_rejects_invalid_transfer_and_text() {
    let mut presenter = NotificationChromePresenter::default();
    let mut invalid = notification_request(0);
    assert_eq!(
        presenter.stage_request(&invalid),
        NotificationChromeUpdate::Rejected(NotificationChromeRejectReason::InvalidTransfer)
    );
    invalid.transfer = PortalTransferId::from_raw(5);
    invalid.summary = "two\nlines".to_owned();
    assert_eq!(
        presenter.stage_request(&invalid),
        NotificationChromeUpdate::Rejected(NotificationChromeRejectReason::InvalidText)
    );
    assert_eq!(presenter.pending_len(), 0);
}

#[test]
fn chrome_close_request_validates_generation_and_closability() {
    let engine = HeadlessEngine::default();
    let surface = SurfaceId::new(9, 1);
    let nodes = vec![layout_node(surface, 3, true)];
    let request = ChromeActionRequest {
        surface,
        generation: 3,
        kind: ChromeActionKind::CloseSurfaceRequested,
    };

    assert_eq!(
        engine.validate_chrome_action(&request, &nodes),
        ChromeActionDecision::RequestPoliteClose { surface }
    );
}

#[test]
fn chrome_close_request_rejects_unknown_surface() {
    let engine = HeadlessEngine::default();
    let request = ChromeActionRequest {
        surface: SurfaceId::new(99, 1),
        generation: 1,
        kind: ChromeActionKind::CloseSurfaceRequested,
    };

    assert_eq!(
        engine.validate_chrome_action(&request, &[]),
        ChromeActionDecision::Rejected(ChromeActionRejectReason::UnknownSurface)
    );
}

#[test]
fn chrome_close_request_rejects_stale_generation() {
    let engine = HeadlessEngine::default();
    let surface = SurfaceId::new(10, 1);
    let nodes = vec![layout_node(surface, 7, true)];
    let request = ChromeActionRequest {
        surface,
        generation: 6,
        kind: ChromeActionKind::CloseSurfaceRequested,
    };

    assert_eq!(
        engine.validate_chrome_action(&request, &nodes),
        ChromeActionDecision::Rejected(ChromeActionRejectReason::StaleGeneration)
    );
}

#[test]
fn chrome_close_request_rejects_non_closable_surface() {
    let engine = HeadlessEngine::default();
    let surface = SurfaceId::new(11, 1);
    let nodes = vec![layout_node(surface, 2, false)];
    let request = ChromeActionRequest {
        surface,
        generation: 2,
        kind: ChromeActionKind::CloseSurfaceRequested,
    };

    assert_eq!(
        engine.validate_chrome_action(&request, &nodes),
        ChromeActionDecision::Rejected(ChromeActionRejectReason::NotClosable)
    );
}

#[test]
fn session_event_routes_accepted_chrome_close_to_x_bridge_command() {
    let engine = HeadlessEngine::default();
    let surface = SurfaceId::new(12, 1);
    let nodes = vec![layout_node(surface, 4, true)];
    let request = ChromeActionRequest {
        surface,
        generation: 4,
        kind: ChromeActionKind::CloseSurfaceRequested,
    };

    let update = engine.handle_session_event(SessionEvent::ChromeAction(request), &nodes);

    assert_eq!(
        update.chrome_decision,
        Some(ChromeActionDecision::RequestPoliteClose { surface })
    );
    assert_eq!(
        update.commands,
        vec![SessionCommand::RequestPoliteClose { surface }]
    );
}

#[test]
fn session_event_does_not_emit_close_command_for_rejected_chrome_action() {
    let engine = HeadlessEngine::default();
    let surface = SurfaceId::new(13, 1);
    let nodes = vec![layout_node(surface, 8, true)];
    let request = ChromeActionRequest {
        surface,
        generation: 7,
        kind: ChromeActionKind::CloseSurfaceRequested,
    };

    let update = engine.handle_session_event(SessionEvent::ChromeAction(request), &nodes);

    assert_eq!(
        update.chrome_decision,
        Some(ChromeActionDecision::Rejected(
            ChromeActionRejectReason::StaleGeneration
        ))
    );
    assert!(update.commands.is_empty());
}

#[test]
fn session_event_notifies_wm_only_after_surface_removed() {
    let engine = HeadlessEngine::default();
    let surface = SurfaceId::new(14, 1);
    let workspace = WorkspaceId::from_raw(3);
    let transaction = TransactionId::from_raw(99);

    let update = engine.handle_session_event(
        SessionEvent::SurfaceRemoved {
            transaction,
            surface,
            workspace,
        },
        &[],
    );

    assert_eq!(update.chrome_decision, None);
    assert_eq!(update.commands.len(), 1);
    let SessionCommand::SendWmRequest(request) = &update.commands[0] else {
        panic!("expected WM request command");
    };
    assert_eq!(request.transaction, transaction);
    assert_eq!(
        request.kind,
        WmRequestKind::SurfaceRemoved { surface, workspace }
    );
}

#[test]
fn session_tick_records_fresh_layers_and_replays_frame() {
    let engine = HeadlessEngine::default();
    let output = engine.output();
    let layers = vec![test_layer(0, 0, 0, Region::empty())];
    let mut cache = LastCommittedLayout::default();

    let report = engine
        .run_session_tick(
            SessionTickRequest {
                output: output.id,
                frame_serial: 70,
                layers: SessionLayerSource::Fresh(layers.clone()),
            },
            &mut cache,
        )
        .unwrap();

    assert!(!report.restored_last_committed);
    assert_eq!(report.frame.frame_serial, 70);
    assert_eq!(report.replay.steps.len(), 1);
    assert_eq!(cache.layers(), layers.as_slice());
}

#[test]
fn session_tick_restores_cached_layout_when_requested() {
    let engine = HeadlessEngine::default();
    let output = engine.output();
    let cached = vec![test_layer(0, 0, 5, Region::empty())];
    let mut cache = LastCommittedLayout::new(cached.clone());

    let report = engine
        .run_session_tick(
            SessionTickRequest {
                output: output.id,
                frame_serial: 71,
                layers: SessionLayerSource::RestoreLastCommitted,
            },
            &mut cache,
        )
        .unwrap();

    assert!(report.restored_last_committed);
    assert_eq!(report.frame.layers, cached);
    assert_eq!(report.replay.steps.len(), 1);
}

#[test]
fn wm_transaction_cache_restores_last_committed_layout_when_wm_is_absent() {
    let cached = test_layer(0, 0, 9, Region::empty());
    let cache = LastCommittedLayout::new(vec![cached.clone()]);
    let mut layers = vec![test_layer(0, 0, 0, Region::empty())];

    cache.restore_into(&mut layers);

    assert_eq!(layers, vec![cached]);
    assert_eq!(cache.layers(), layers.as_slice());
}

#[test]
fn deterministic_frame_clock_advances_serials_predictably() {
    let output = OutputId::from_raw(4);
    let mut clock = DeterministicFrameClock::new(5, 16);

    let first = clock.next_frame(output);
    let second = clock.next_frame(output);

    assert_eq!(first.output, output);
    assert_eq!(first.frame_serial, 5);
    assert_eq!(first.target_msec, 80);
    assert_eq!(second.output, output);
    assert_eq!(second.frame_serial, 6);
    assert_eq!(second.target_msec, 96);
    assert_eq!(clock.next_serial(), 7);
    assert_eq!(clock.frame_interval_msec(), 16);
}

#[test]
fn deterministic_frame_clock_saturates_at_the_end_of_time() {
    let output = OutputId::from_raw(1);
    let mut clock = DeterministicFrameClock::new(u64::MAX, 2);

    let tick = clock.next_frame(output);

    assert_eq!(tick.frame_serial, u64::MAX);
    assert_eq!(tick.target_msec, u64::MAX);
    assert_eq!(clock.next_serial(), u64::MAX);
    let default_clock = DeterministicFrameClock::default();
    assert_eq!(default_clock.next_serial(), 1);
    assert_eq!(default_clock.frame_interval_msec(), 16);
}

#[test]
fn clocked_session_tick_uses_clock_serial_and_updates_cache() {
    let engine = HeadlessEngine::default();
    let layers = vec![test_layer(0, 0, 0, Region::empty())];
    let mut cache = LastCommittedLayout::default();
    let mut clock = DeterministicFrameClock::new(10, 16);

    let report = engine
        .run_clocked_session_tick(
            &mut clock,
            SessionLayerSource::Fresh(layers.clone()),
            &mut cache,
        )
        .unwrap();

    assert_eq!(report.frame.frame_serial, 10);
    assert_eq!(report.replay.frame_serial, 10);
    assert!(!report.restored_last_committed);
    assert_eq!(cache.layers(), layers.as_slice());
    assert_eq!(clock.next_serial(), 11);
}

#[test]
fn clocked_session_tick_can_restore_last_committed_layout() {
    let engine = HeadlessEngine::default();
    let cached = vec![test_layer(0, 0, 8, Region::empty())];
    let mut cache = LastCommittedLayout::new(cached.clone());
    let mut clock = DeterministicFrameClock::new(20, 16);

    let report = engine
        .run_clocked_session_tick(
            &mut clock,
            SessionLayerSource::RestoreLastCommitted,
            &mut cache,
        )
        .unwrap();

    assert_eq!(report.frame.frame_serial, 20);
    assert!(report.restored_last_committed);
    assert_eq!(report.frame.layers, cached);
    assert_eq!(clock.next_serial(), 21);
}

#[test]
fn frame_scheduler_waits_without_damage() {
    let tick = frame_tick(1);

    assert_eq!(
        schedule_frame_from_damage(tick, None, &mut None),
        FrameScheduleDecision::WaitForDamage
    );
}

#[test]
fn frame_scheduler_waits_for_pending_layout_epoch_surfaces() {
    let tick = frame_tick(2);
    let surface_a = SurfaceId::new(1, 1);
    let surface_b = SurfaceId::new(2, 1);
    let mut epoch = Some(LayoutEpochState::new(9, &[surface_a, surface_b]));
    let damage = damage_frame(2, &[surface_a]);

    assert_eq!(
        schedule_frame_from_damage(tick, Some(damage), &mut epoch),
        FrameScheduleDecision::WaitForLayoutEpoch {
            epoch: 9,
            pending_surfaces: vec![surface_b],
        }
    );
    assert_eq!(epoch.unwrap().pending_surfaces(), vec![surface_b]);
}

#[test]
fn frame_scheduler_renders_when_damage_completes_layout_epoch() {
    let tick = frame_tick(3);
    let surface = SurfaceId::new(1, 1);
    let mut epoch = Some(LayoutEpochState::new(10, &[surface]));
    let damage = damage_frame(3, &[surface]);

    let decision = schedule_frame_from_damage(tick, Some(damage.clone()), &mut epoch);

    assert_eq!(
        decision,
        FrameScheduleDecision::Render {
            output: tick.output,
            frame_serial: 3,
            damage,
            completed_epoch: Some(10),
        }
    );
    assert!(epoch.unwrap().is_complete());
}

#[test]
fn frame_scheduler_waits_for_damage_of_another_output() {
    let tick = frame_tick(4);
    let surface = SurfaceId::new(1, 1);
    let mut epoch = Some(LayoutEpochState::new(11, &[surface]));
    let mut damage = damage_frame(4, &[surface]);
    damage.output = OutputId::from_raw(2);

    let decision = schedule_frame_from_damage(tick, Some(damage), &mut epoch);

    assert_eq!(decision, FrameScheduleDecision::WaitForDamage);
    assert_eq!(epoch.unwrap().pending_surfaces(), vec![surface]);
}

#[test]
fn resize_behavior_sample_reports_completed_epoch() {
    let surface = SurfaceId::new(1, 1);
    let mut epoch = LayoutEpochState::with_timing(11, &[surface], 100, 300);
    epoch.observe_damage(&damage_frame(4, &[surface]));

    let sample = measure_resize_behavior(&epoch, 180);

    assert_eq!(sample.epoch, 11);
    assert_eq!(sample.elapsed_msec, 80);
    assert_eq!(sample.timeout_msec, 300);
    assert!(sample.completed);
    assert!(!sample.timed_out);
    assert!(sample.pending_surfaces.is_empty());
}

#[test]
fn resize_behavior_sample_reports_slow_non_cooperative_epoch_timeout() {
    let surface = SurfaceId::new(1, 1);
    let epoch = LayoutEpochState::with_timing(12, &[surface], 100, 250);

    let sample = measure_resize_behavior(&epoch, 351);

    assert_eq!(sample.epoch, 12);
    assert_eq!(sample.elapsed_msec, 251);
    assert_eq!(sample.timeout_msec, 250);
    assert!(!sample.completed);
    assert!(sample.timed_out);
    assert_eq!(sample.pending_surfaces, vec![surface]);
}

#[test]
fn layout_epoch_ignores_invalid_surfaces_and_duplicates() {
    let surface = SurfaceId::new(3, 1);
    let epoch = LayoutEpochState::new(1, &[surface, SurfaceId::invalid(), surface]);

    assert_eq!(epoch.pending_surfaces(), vec![surface]);
    assert!(!epoch.is_complete());
    assert_eq!(epoch.timeout_msec(), 300);
}

#[test]
fn engine_errors_map_to_their_kinds() {
    assert_eq!(EngineError::InvalidOutput.kind(), SophiaErrorKind::InvalidOutput);
    assert_eq!(EngineError::InvalidSurface.kind(), SophiaErrorKind::InvalidSurface);
    assert_eq!(EngineError::InvalidFrame.kind(), SophiaErrorKind::InvalidFrame);
    assert_eq!(
        EngineError::WmIpc(WmIpcError::Io("closed".to_owned())).kind(),
        SophiaErrorKind::ExternalProcess
    );
}
