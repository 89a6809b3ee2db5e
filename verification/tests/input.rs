use sophia_engine::input::{
    routed_input_request_from_physical_event, routed_input_requests_from_flush, InputEventKind,
    InputEventPacket, InputRoute, InputRouteOutcome, LibinputDeviceDescriptor, LibinputDeviceKind,
    LibinputEventIngest, LibinputEventSource, LibinputPhysicalInputAdapter, Point,
    QueuedInputPoller, RoutedInputCoalescer, RoutedInputFlushReason, RoutedInputQueueAction,
    RoutedInputRequestError,
};
use sophia_engine::protocol::{DeviceId, SeatId, SurfaceId};

fn point(x: f64, y: f64) -> Point {
    Point {
        x_bits: x.to_bits(),
        y_bits: y.to_bits(),
    }
}

fn motion_event(serial: u64, x: f64, y: f64) -> InputEventPacket {
    input_event(serial, InputEventKind::PointerMotion, x, y)
}

fn input_event(serial: u64, kind: InputEventKind, x: f64, y: f64) -> InputEventPacket {
    InputEventPacket {
        serial,
        seat: SeatId::from_raw(1),
        device: DeviceId::from_raw(2),
        time_msec: serial * 10,
        kind,
        global_position: Some(point(x, y)),
    }
}

fn route(serial: u64, target_surface: u32, x: f64, y: f64) -> InputRoute {
    InputRoute {
        input_serial: serial,
        target_surface: Some(SurfaceId::new(target_surface, 1)),
        global_position: point(x, y),
        local_position: Some(point(x, y)),
        outcome: InputRouteOutcome::Routed,
    }
}

fn pointer_device(seat: u64) -> LibinputDeviceDescriptor {
    LibinputDeviceDescriptor {
        seat: SeatId::from_raw(seat),
        device: DeviceId::from_raw(2),
        kind: LibinputDeviceKind::Pointer,
    }
}

fn check_keeps_latest_stable_motion_until_frame() {
    let mut coalescer = RoutedInputCoalescer::new();

    assert_eq!(
        coalescer.push(motion_event(1, 10.0, 10.0), route(1, 0x30, 10.0, 10.0)),
        RoutedInputQueueAction::BufferedMotion
    );
    assert_eq!(
        coalescer.push(motion_event(2, 20.0, 20.0), route(2, 0x30, 20.0, 20.0)),
        RoutedInputQueueAction::BufferedMotion
    );

    let flush = coalescer.flush_frame().unwrap();

    assert_eq!(flush.reason, RoutedInputFlushReason::FrameBoundary);
    assert_eq!(flush.inputs.len(), 1);
    assert_eq!(flush.inputs[0].event.serial, 2);
    assert!(!coalescer.has_pending_motion());
}

#[test]
fn engine_routed_input_coalescer_keeps_latest_stable_motion_until_frame() {
    check_keeps_latest_stable_motion_until_frame();
}

#[test]
fn input_routed_input_coalescer_keeps_latest_stable_motion_until_frame() {
    check_keeps_latest_stable_motion_until_frame();
}

fn check_flushes_on_target_crossing() {
    let mut coalescer = RoutedInputCoalescer::new();
    coalescer.push(motion_event(1, 10.0, 10.0), route(1, 0x30, 10.0, 10.0));

    let action = coalescer.push(motion_event(2, 11.0, 11.0), route(2, 0x40, 1.0, 1.0));

    let RoutedInputQueueAction::Flushed(flush) = action else {
        panic!("expected target crossing flush");
    };
    assert_eq!(flush.reason, RoutedInputFlushReason::TargetCrossing);
    assert_eq!(
        flush
            .inputs
            .iter()
            .map(|input| input.event.serial)
            .collect::<Vec<_>>(),
        vec![1, 2]
    );
    assert!(!coalescer.has_pending_motion());
}

#[test]
fn engine_routed_input_coalescer_flushes_on_target_crossing() {
    check_flushes_on_target_crossing();
}

#[test]
fn input_routed_input_coalescer_flushes_on_target_crossing() {
    check_flushes_on_target_crossing();
}

fn check_flushes_for_button_and_key_events() {
    let mut coalescer = RoutedInputCoalescer::new();
    coalescer.push(motion_event(1, 10.0, 10.0), route(1, 0x30, 10.0, 10.0));

    let button = input_event(
        2,
        InputEventKind::PointerButton {
            button: 1,
            pressed: true,
        },
        10.0,
        10.0,
    );
    let action = coalescer.push(button, route(2, 0x30, 10.0, 10.0));

    let RoutedInputQueueAction::Flushed(flush) = action else {
        panic!("expected button flush");
    };
    assert_eq!(flush.reason, RoutedInputFlushReason::StateChangingInput);
    assert_eq!(flush.inputs.len(), 2);
    assert!(!coalescer.has_pending_motion());

    let key = input_event(
        3,
        InputEventKind::Key {
            keycode: 38,
            pressed: true,
        },
        0.0,
        0.0,
    );
    let action = coalescer.push(key, route(3, 0x30, 0.0, 0.0));

    let RoutedInputQueueAction::Flushed(flush) = action else {
        panic!("expected key flush");
    };
    assert_eq!(flush.reason, RoutedInputFlushReason::StateChangingInput);
    assert_eq!(flush.inputs.len(), 1);
    assert_eq!(flush.inputs[0].event.serial, 3);
}

#[test]
fn engine_routed_input_coalescer_flushes_for_button_and_key_events() {
    check_flushes_for_button_and_key_events();
}

#[test]
fn input_routed_input_coalescer_flushes_for_button_and_key_events() {
    check_flushes_for_button_and_key_events();
}

fn check_flushes_for_drag_grab_and_focus_barriers() {
    for reason in [
        RoutedInputFlushReason::DragStateChanged,
        RoutedInputFlushReason::GrabChanged,
        RoutedInputFlushReason::FocusChanged,
    ] {
        let mut coalescer = RoutedInputCoalescer::new();
        coalescer.push(motion_event(1, 10.0, 10.0), route(1, 0x30, 10.0, 10.0));

        let flush = coalescer.flush_barrier(reason).unwrap();

        assert_eq!(flush.reason, reason);
        assert_eq!(flush.inputs.len(), 1);
        assert_eq!(flush.inputs[0].event.serial, 1);
        assert!(!coalescer.has_pending_motion());
    }
}

#[test]
fn engine_routed_input_coalescer_flushes_for_drag_grab_and_focus_barriers() {
    check_flushes_for_drag_grab_and_focus_barriers();
}

#[test]
fn input_routed_input_coalescer_flushes_for_drag_grab_and_focus_barriers() {
    check_flushes_for_drag_grab_and_focus_barriers();
}

#[test]
fn routed_input_coalescer_has_nothing_to_flush_when_empty() {
    let mut coalescer = RoutedInputCoalescer::new();

    assert!(coalescer.flush_frame().is_none());
    assert!(coalescer
        .flush_barrier(RoutedInputFlushReason::FocusChanged)
        .is_none());
}

#[test]
fn physical_input_route_becomes_authority_request() {
    let event = motion_event(77, 25.0, 35.0);
    let route = route(77, 0x44, 5.0, 6.0);

    let request = routed_input_request_from_physical_event(&event, &route).unwrap();

    assert_eq!(request.serial, 77);
    assert_eq!(request.seat, event.seat);
    assert_eq!(request.device, event.device);
    assert_eq!(request.time_msec, event.time_msec);
    assert_eq!(request.target_surface, SurfaceId::new(0x44, 1));
    assert_eq!(request.local_position, point(5.0, 6.0));
    assert_eq!(request.kind, InputEventKind::PointerMotion);
}

#[test]
fn physical_input_flush_becomes_authority_requests_after_state_change() {
    let mut coalescer = RoutedInputCoalescer::new();
    coalescer.push(motion_event(1, 10.0, 10.0), route(1, 0x30, 10.0, 10.0));
    let button = input_event(
        2,
        InputEventKind::PointerButton {
            button: 1,
            pressed: true,
        },
        10.0,
        10.0,
    );

    let RoutedInputQueueAction::Flushed(flush) = coalescer.push(button, route(2, 0x30, 10.0, 10.0))
    else {
        panic!("expected state-changing flush");
    };
    let requests = routed_input_requests_from_flush(&flush).unwrap();

    assert_eq!(requests.len(), 2);
    assert_eq!(requests[0].serial, 1);
    assert_eq!(requests[1].serial, 2);
    assert_eq!(
        requests[1].kind,
        InputEventKind::PointerButton {
            button: 1,
            pressed: true
        }
    );
}

fn check_route_rejects_malformed_routes() {
    let event = motion_event(1, 10.0, 10.0);
    let mut mismatched = route(2, 0x30, 10.0, 10.0);
    assert_eq!(
        routed_input_request_from_physical_event(&event, &mismatched),
        Err(RoutedInputRequestError::SerialMismatch)
    );

    mismatched.input_serial = 1;
    mismatched.outcome = InputRouteOutcome::NoTarget;
    assert_eq!(
        routed_input_request_from_physical_event(&event, &mismatched),
        Err(RoutedInputRequestError::RouteNotAccepted)
    );

    mismatched.outcome = InputRouteOutcome::Routed;
    mismatched.target_surface = None;
    assert_eq!(
        routed_input_request_from_physical_event(&event, &mismatched),
        Err(RoutedInputRequestError::MissingTargetSurface)
    );

    mismatched.target_surface = Some(SurfaceId::new(0x30, 1));
    mismatched.local_position = None;
    assert_eq!(
        routed_input_request_from_physical_event(&event, &mismatched),
        Err(RoutedInputRequestError::MissingLocalPosition)
    );
}

#[test]
fn input_physical_input_route_rejects_malformed_routes() {
    check_route_rejects_malformed_routes();
}

fn check_accepts_registered_device_events_in_order() {
    let mut source = LibinputEventSource::new();
    let device = pointer_device(1);
    source.register_device(device);

    assert_eq!(source.device(DeviceId::from_raw(2)), Some(device));
    assert_eq!(source.devices().len(), 1);
    assert_eq!(
        source.push_event(motion_event(1, 10.0, 20.0)),
        LibinputEventIngest::Accepted
    );
    assert_eq!(
        source.push_event(motion_event(2, 11.0, 21.0)),
        LibinputEventIngest::Accepted
    );

    let events = source.drain_events();

    assert_eq!(events.len(), 2);
    assert_eq!(events[0].serial, 1);
    assert_eq!(events[1].serial, 2);
    assert_eq!(source.pending_len(), 0);
    assert_eq!(source.remove_device(DeviceId::from_raw(2)), Some(device));
}

#[test]
fn backend_libinput_event_source_accepts_registered_device_events_in_order() {
    check_accepts_registered_device_events_in_order();
}

#[test]
fn engine_libinput_event_source_accepts_registered_device_events_in_order() {
    check_accepts_registered_device_events_in_order();
}

fn check_rejects_unknown_or_wrong_seat_events() {
    let mut source = LibinputEventSource::new();
    source.register_device(LibinputDeviceDescriptor {
        seat: SeatId::from_raw(9),
        device: DeviceId::from_raw(2),
        kind: LibinputDeviceKind::Keyboard,
    });

    assert_eq!(
        source.push_event(motion_event(1, 0.0, 0.0)),
        LibinputEventIngest::SeatMismatch
    );

    let mut unknown_device_event = motion_event(2, 0.0, 0.0);
    unknown_device_event.device = DeviceId::from_raw(99);
    assert_eq!(
        source.push_event(unknown_device_event),
        LibinputEventIngest::UnknownDevice
    );
    assert_eq!(source.pending_len(), 0);
}

#[test]
fn backend_libinput_event_source_rejects_unknown_or_wrong_seat_events() {
    check_rejects_unknown_or_wrong_seat_events();
}

#[test]
fn engine_libinput_event_source_rejects_unknown_or_wrong_seat_events() {
    check_rejects_unknown_or_wrong_seat_events();
}

#[test]
fn libinput_physical_input_adapter_polls_ready_events_without_blocking() {
    let mut source = LibinputEventSource::new();
    source.register_device(pointer_device(1));
    let poller = QueuedInputPoller::new(vec![
        motion_event(1, 10.0, 20.0),
        motion_event(2, 11.0, 21.0),
    ]);
    let mut adapter = LibinputPhysicalInputAdapter::new(poller, source);

    let report = adapter.poll_once().unwrap();

    assert_eq!(report.polled, 2);
    assert_eq!(report.accepted, 2);
    assert!(report.rejected.is_empty());
    assert_eq!(adapter.source().pending_len(), 2);
    let events = adapter.source_mut().drain_events();
    assert_eq!(events[0].serial, 1);
    assert_eq!(events[1].serial, 2);

    let empty_report = adapter.poll_once().unwrap();
    assert_eq!(empty_report.polled, 0);
    assert_eq!(empty_report.accepted, 0);
    assert!(empty_report.rejected.is_empty());
}

#[test]
fn libinput_physical_input_adapter_reports_rejected_events() {
    let mut source = LibinputEventSource::new();
    source.register_device(pointer_device(9));
    let mut unknown_device_event = motion_event(2, 0.0, 0.0);
    unknown_device_event.device = DeviceId::from_raw(99);
    let poller = QueuedInputPoller::new(vec![motion_event(1, 0.0, 0.0), unknown_device_event]);
    let mut adapter = LibinputPhysicalInputAdapter::new(poller, source);

    let report = adapter.poll_once().unwrap();

    assert_eq!(report.polled, 2);
    assert_eq!(report.accepted, 0);
    assert_eq!(
        report.rejected,
        vec![
            LibinputEventIngest::SeatMismatch,
            LibinputEventIngest::UnknownDevice,
        ]
    );
    assert_eq!(adapter.source().pending_len(), 0);
}

#[test]
fn routed_request_carries_both_positions_and_refuses_invalid_surfaces() {
    let event = motion_event(5, 40.0, 50.0);
    let mut routed = route(5, 0x21, 3.0, 4.0);
    routed.global_position = point(40.0, 50.0);
    let request = routed_input_request_from_physical_event(&event, &routed).unwrap();
    assert_eq!(request.global_position, point(40.0, 50.0));
    assert_eq!(request.local_position, point(3.0, 4.0));

    routed.target_surface = Some(SurfaceId::invalid());
    assert_eq!(
        routed_input_request_from_physical_event(&event, &routed),
        Err(RoutedInputRequestError::MissingTargetSurface)
    );
    let mut coalescer = RoutedInputCoalescer::new();
    assert!(matches!(coalescer.push(event, routed), RoutedInputQueueAction::Flushed(_)));
}
