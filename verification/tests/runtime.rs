use sophia_engine::protocol::{OutputId, SurfaceId, TransactionCommit, TransactionId, TransactionOutcome};
use sophia_engine::runtime::{
    runtime_observation_from_authority_transaction_commit, runtime_observation_from_slow_client_visual_decisions,
    BrokerHealthPacket, BrokerHealthState, BrokerKind, LiveBrokerRuntimeAdapter, LiveScanoutRuntimeAdapter,
    LiveXRuntimeAdapter, RenderFrameReport, RuntimeScanoutState, SessionRuntimeObservation,
    SlowClientVisualDecision,
};
use sophia_engine::runtime::runtime_observation_from_render_frame_report;
use sophia_engine::wm::{
    check_wm_response_transaction, wm_response_payload_len, IpcCodecError, WmIpcError, WmSocketTransportConfig,
    SOPHIA_IPC_HEADER_LEN, SOPHIA_IPC_MAX_PAYLOAD_LEN,
};

fn header_with_payload_len(len: u32) -> Vec<u8> {
    let mut header = vec![0u8; SOPHIA_IPC_HEADER_LEN];
    header[16..20].copy_from_slice(&len.to_le_bytes());
    header
}

#[test]
fn wm_socket_transport_defaults_to_a_250_msec_timeout() {
    assert_eq!(WmSocketTransportConfig::default().response_timeout_msec, 250);
}

#[test]
fn wm_socket_transport_rejects_transaction_mismatch() {
    assert_eq!(
        check_wm_response_transaction(TransactionId::from_raw(42), TransactionId::from_raw(43)),
        Err(WmIpcError::TransactionMismatch {
            expected: TransactionId::from_raw(42),
            actual: TransactionId::from_raw(43),
        })
    );
    assert_eq!(check_wm_response_transaction(TransactionId::from_raw(42), TransactionId::from_raw(42)), Ok(()));
}

#[test]
fn wm_socket_transport_rejects_oversized_response_before_payload_read() {
    let too_large = SOPHIA_IPC_MAX_PAYLOAD_LEN as u32 + 1;
    assert_eq!(
        wm_response_payload_len(&header_with_payload_len(too_large)),
        Err(WmIpcError::Codec(IpcCodecError::PayloadTooLarge(too_large as usize)))
    );
    assert_eq!(
        wm_response_payload_len(&header_with_payload_len(SOPHIA_IPC_MAX_PAYLOAD_LEN as u32)),
        Ok(SOPHIA_IPC_MAX_PAYLOAD_LEN)
    );
    assert_eq!(wm_response_payload_len(&header_with_payload_len(0x0102)), Ok(0x0102));
}

#[test]
fn authority_commit_becomes_an_observation() {
    let commit = TransactionCommit {
        transaction: TransactionId::from_raw(5),
        outcome: TransactionOutcome::Committed,
        applied_surfaces: vec![SurfaceId::new(1, 1), SurfaceId::new(2, 1)],
    };
    assert_eq!(
        runtime_observation_from_authority_transaction_commit(&commit),
        SessionRuntimeObservation::AuthorityTransactionObserved {
            outcome: TransactionOutcome::Committed,
            applied_surface_count: 2,
        }
    );
}

#[test]
fn slow_client_decisions_are_counted_by_kind() {
    let surface = SurfaceId::new(1, 1);
    let decisions = [
        SlowClientVisualDecision::CommitReady { surface },
        SlowClientVisualDecision::PreserveCommitted { surface },
        SlowClientVisualDecision::DegradeToPending { surface },
        SlowClientVisualDecision::PreserveCommitted { surface },
    ];
    assert_eq!(
        runtime_observation_from_slow_client_visual_decisions(&decisions),
        SessionRuntimeObservation::SlowClientVisualDecisionsObserved {
            timeout_count: 3,
            preserved_count: 2,
            degraded_count: 1,
        }
    );
}

#[test]
fn broker_health_reports_the_message_length_in_bytes() {
    let packet = BrokerHealthPacket {
        broker: BrokerKind::Portal,
        state: BrokerHealthState::Degraded,
        generation: 7,
        message: Some("é ok".to_string()),
    };
    assert_eq!(
        LiveBrokerRuntimeAdapter::health_observation(&packet),
        SessionRuntimeObservation::BrokerHealthChanged {
            broker: BrokerKind::Portal,
            state: BrokerHealthState::Degraded,
            generation: 7,
            status_message_len: 5,
        }
    );
    let silent = BrokerHealthPacket { message: None, ..packet };
    assert_eq!(
        LiveBrokerRuntimeAdapter::from_health_packet(&silent),
        SessionRuntimeObservation::BrokerHealthChanged {
            broker: BrokerKind::Portal,
            state: BrokerHealthState::Degraded,
            generation: 7,
            status_message_len: 0,
        }
    );
}

#[test]
fn scanout_and_x_adapters_report_their_state() {
    assert_eq!(
        LiveScanoutRuntimeAdapter::rejected().submit_observation(9),
        SessionRuntimeObservation::ScanoutStateChanged { state: RuntimeScanoutState::Rejected, frame_serial: Some(9) }
    );
    assert_eq!(
        LiveScanoutRuntimeAdapter::default().submit_observation(3),
        SessionRuntimeObservation::ScanoutStateChanged { state: RuntimeScanoutState::Submitted, frame_serial: Some(3) }
    );
    assert_eq!(
        LiveXRuntimeAdapter::from_polled_event_count(4).poll_observation(),
        SessionRuntimeObservation::XEventsPolled { count: 4 }
    );
    assert_eq!(
        runtime_observation_from_render_frame_report(&RenderFrameReport {
            output: OutputId::from_raw(1),
            frame_serial: 12
        }),
        SessionRuntimeObservation::FrameRendered { frame_serial: 12 }
    );
}
