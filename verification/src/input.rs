//! Physical input: the libinput event source that admits events only from
//! registered devices on their own seat, the non-blocking poll adapter, the
//! coalescer that keeps only the latest pointer motion per target until a
//! frame or a state change, and the conversion of a routed event into a
//! request for a protocol authority.

use std::collections::BTreeMap;
use vstd::prelude::*;

use crate::protocol::{DeviceId, SeatId, SurfaceId};

verus! {

broadcast use vstd::std_specs::btree::group_btree_axioms;

/// `std::io::Error`, carried through as the poller's failure.
#[verifier::external_type_specification]
#[verifier::external_body]
pub struct ExIoError(std::io::Error);

/// A position as the IEEE-754 bit patterns of its two coordinates. The
/// routing logic here moves positions around but never computes with them.
#[derive(Clone, Copy, Debug, PartialEq, Eq, Structural)]
pub struct Point {
    pub x_bits: u64,
    pub y_bits: u64,
}

/// What a physical input event does.
#[derive(Clone, Copy, Debug, PartialEq, Eq, Structural)]
pub enum InputEventKind {
    PointerMotion,
    PointerButton { button: u32, pressed: bool },
    Key { keycode: u32, pressed: bool },
}

/// One physical input event.
#[derive(Clone, Copy, Debug, PartialEq, Eq, Structural)]
pub struct InputEventPacket {
    pub serial: u64,
    pub seat: SeatId,
    pub device: DeviceId,
    pub time_msec: u64,
    pub kind: InputEventKind,
    pub global_position: Option<Point>,
}

/// Whether hit testing found a target.
#[derive(Clone, Copy, Debug, PartialEq, Eq, Structural)]
pub enum InputRouteOutcome {
    Routed,
    NoTarget,
}

/// Where the engine routed one input event.
#[derive(Clone, Copy, Debug, PartialEq, Eq, Structural)]
pub struct InputRoute {
    pub input_serial: u64,
    pub target_surface: Option<SurfaceId>,
    pub global_position: Point,
    pub local_position: Option<Point>,
    pub outcome: InputRouteOutcome,
}

/// A routed event and its route, waiting to be sent.
#[derive(Clone, Copy, Debug, PartialEq, Eq, Structural)]
pub struct QueuedRoutedInput {
    pub event: InputEventPacket,
    pub route: InputRoute,
}

/// Why queued input was released.
#[derive(Clone, Copy, Debug, PartialEq, Eq, Structural)]
pub enum RoutedInputFlushReason {
    FrameBoundary,
    StateChangingInput,
    TargetCrossing,
    DragStateChanged,
    GrabChanged,
    FocusChanged,
}

/// Released input, oldest first.
#[derive(Clone, Debug, PartialEq, Eq)]
pub struct RoutedInputFlush {
    pub reason: RoutedInputFlushReason,
    pub inputs: Vec<QueuedRoutedInput>,
}

/// What pushing an event did.
#[derive(Clone, Debug, PartialEq, Eq)]
pub enum RoutedInputQueueAction {
    BufferedMotion,
    Flushed(RoutedInputFlush),
}

/// The surface a routed pointer motion goes to, when it is valid. Only such
/// motions coalesce, and two of them coalesce when they go to the same
/// surface.
pub open spec fn motion_key(input: QueuedRoutedInput) -> Option<SurfaceId> {
    if input.event.kind != InputEventKind::PointerMotion {
        None
    } else if input.route.outcome != InputRouteOutcome::Routed {
        None
    } else {
        match input.route.target_surface {
            Some(s) => if s.spec_valid() {
                Some(s)
            } else {
                None
            },
            None => None,
        }
    }
}

fn coalescible_motion_key(input: &QueuedRoutedInput) -> (key: Option<SurfaceId>)
    ensures
        key == motion_key(*input),
{
    match input.event.kind {
        InputEventKind::PointerMotion => {},
        _ => return None,
    }
    match input.route.outcome {
        InputRouteOutcome::Routed => {},
        InputRouteOutcome::NoTarget => return None,
    }
    match input.route.target_surface {
        Some(s) => if s.is_valid() {
            Some(s)
        } else {
            None
        },
        None => None,
    }
}

/// The pending motion and queue action after pushing `input`: a motion to
/// the same target replaces the pending one; any other event releases the
/// pending motion (if any) followed by the new event, except that a motion
/// with nothing pending is simply buffered.
pub open spec fn push_step(pending: Option<QueuedRoutedInput>, input: QueuedRoutedInput) -> (
    Option<QueuedRoutedInput>,
    Option<(RoutedInputFlushReason, Seq<QueuedRoutedInput>)>,
) {
    match motion_key(input) {
        Some(key) => match pending {
            None => (Some(input), None),
            Some(p) => match motion_key(p) {
                Some(pk) => if pk == key {
                    (Some(input), None)
                } else {
                    (None, Some((RoutedInputFlushReason::TargetCrossing, seq![p, input])))
                },
                None => (Some(input), None),
            },
        },
        None => match pending {
            Some(p) => (None, Some((RoutedInputFlushReason::StateChangingInput, seq![p, input]))),
            None => (None, Some((RoutedInputFlushReason::StateChangingInput, seq![input]))),
        },
    }
}

/// Holds at most one pointer motion until a frame, a barrier or a state change.
#[derive(Clone, Debug, PartialEq, Eq)]
pub struct RoutedInputCoalescer {
    pending_motion: Option<QueuedRoutedInput>,
}

impl RoutedInputCoalescer {
    pub closed spec fn pending(self) -> Option<QueuedRoutedInput> {
        self.pending_motion
    }

    pub fn new() -> (coalescer: RoutedInputCoalescer)
        ensures
            coalescer.pending() == None::<QueuedRoutedInput>,
    {
        RoutedInputCoalescer { pending_motion: None }
    }

    /// Queues one routed event; see `push_step`.
    pub fn push(&mut self, event: InputEventPacket, route: InputRoute) -> (action: RoutedInputQueueAction)
        ensures
            ({
                let (pending, flushed) = push_step(old(self).pending(), QueuedRoutedInput { event, route });
                &&& final(self).pending() == pending
                &&& match flushed {
                    None => action == RoutedInputQueueAction::BufferedMotion,
                    Some((reason, inputs)) => action matches RoutedInputQueueAction::Flushed(f)
                        && f.reason == reason && f.inputs@ == inputs,
                }
            }),
    {
        let input = QueuedRoutedInput { event, route };
        match coalescible_motion_key(&input) {
            Some(key) => self.push_motion(input, key),
            None => self.flush_with(RoutedInputFlushReason::StateChangingInput, Some(input)),
        }
    }

    /// Releases the pending motion at a frame boundary.
    pub fn flush_frame(&mut self) -> (flush: Option<RoutedInputFlush>)
        ensures
            final(self).pending() == None::<QueuedRoutedInput>,
            match old(self).pending() {
                Some(p) => flush matches Some(f) && f.reason == RoutedInputFlushReason::FrameBoundary
                    && f.inputs@ == seq![p],
                None => flush == None::<RoutedInputFlush>,
            },
    {
        self.take_pending(RoutedInputFlushReason::FrameBoundary)
    }

    /// Releases the pending motion because drag, grab or focus changed.
    pub fn flush_barrier(&mut self, reason: RoutedInputFlushReason) -> (flush: Option<RoutedInputFlush>)
        ensures
            final(self).pending() == None::<QueuedRoutedInput>,
            match old(self).pending() {
                Some(p) => flush matches Some(f) && f.reason == reason && f.inputs@ == seq![p],
                None => flush == None::<RoutedInputFlush>,
            },
    {
        self.take_pending(reason)
    }

    pub fn has_pending_motion(&self) -> (pending: bool)
        ensures
            pending == self.pending().is_some(),
    {
        self.pending_motion.is_some()
    }

    fn push_motion(&mut self, input: QueuedRoutedInput, key: SurfaceId) -> (action:
        RoutedInputQueueAction)
        requires
            motion_key(input) == Some(key),
        ensures
            ({
                let (pending, flushed) = push_step(old(self).pending(), input);
                &&& final(self).pending() == pending
                &&& match flushed {
                    None => action == RoutedInputQueueAction::BufferedMotion,
                    Some((reason, inputs)) => action matches RoutedInputQueueAction::Flushed(f)
                        && f.reason == reason && f.inputs@ == inputs,
                }
            }),
    {
        let pending_key = match &self.pending_motion {
            Some(p) => coalescible_motion_key(p),
            None => None,
        };
        match pending_key {
            Some(pk) => {
                if pk.same(&key) {
                    self.pending_motion = Some(input);
                    RoutedInputQueueAction::BufferedMotion
                } else {
                    self.flush_with(RoutedInputFlushReason::TargetCrossing, Some(input))
                }
            },
            None => {
                self.pending_motion = Some(input);
                RoutedInputQueueAction::BufferedMotion
            },
        }
    }

    fn flush_with(&mut self, reason: RoutedInputFlushReason, current: Option<QueuedRoutedInput>) -> (action:
        RoutedInputQueueAction)
        ensures
            final(self).pending() == None::<QueuedRoutedInput>,
            action matches RoutedInputQueueAction::Flushed(f) && f.reason == reason && f.inputs@ == match (
                old(self).pending(),
                current,
            ) {
                (Some(p), Some(c)) => seq![p, c],
                (Some(p), None) => seq![p],
                (None, Some(c)) => seq![c],
                (None, None) => Seq::empty(),
            },
    {
        let mut inputs: Vec<QueuedRoutedInput> = Vec::new();
        match self.pending_motion.take() {
            Some(pending) => inputs.push(pending),
            None => {},
        }
        match current {
            Some(c) => inputs.push(c),
            None => {},
        }
        proof {
            match (old(self).pending(), current) {
                (Some(p), Some(c)) => assert(inputs@ =~= seq![p, c]),
                (Some(p), None) => assert(inputs@ =~= seq![p]),
                (None, Some(c)) => assert(inputs@ =~= seq![c]),
                (None, None) => assert(inputs@ =~= Seq::<QueuedRoutedInput>::empty()),
            }
        }
        RoutedInputQueueAction::Flushed(RoutedInputFlush { reason, inputs })
    }

    fn take_pending(&mut self, reason: RoutedInputFlushReason) -> (flush: Option<RoutedInputFlush>)
        ensures
            final(self).pending() == None::<QueuedRoutedInput>,
            match old(self).pending() {
                Some(p) => flush matches Some(f) && f.reason == reason && f.inputs@ == seq![p],
                None => flush == None::<RoutedInputFlush>,
            },
    {
        match self.pending_motion.take() {
            Some(pending) => {
                let mut inputs: Vec<QueuedRoutedInput> = Vec::new();
                inputs.push(pending);
                assert(inputs@ =~= seq![pending]);
                Some(RoutedInputFlush { reason, inputs })
            },
            None => None,
        }
    }
}

/// A routed event as a protocol authority receives it: addressed to a
/// surface, never to an authority's own window.
#[derive(Clone, Copy, Debug, PartialEq, Eq, Structural)]
pub struct RoutedInputRequest {
    pub serial: u64,
    pub seat: SeatId,
    pub device: DeviceId,
    pub time_msec: u64,
    pub target_surface: SurfaceId,
    pub global_position: Point,
    pub local_position: Point,
    pub kind: InputEventKind,
}

/// Why a route could not become a request.
#[derive(Clone, Copy, Debug, PartialEq, Eq, Structural)]
pub enum RoutedInputRequestError {
    SerialMismatch,
    RouteNotAccepted,
    MissingTargetSurface,
    MissingLocalPosition,
}

/// The request for a routed event, or why there is none: the route must be
/// for this event, accepted, with a valid target surface and a local
/// position.
pub open spec fn spec_request_from_route(event: InputEventPacket, route: InputRoute) -> Result<
    RoutedInputRequest,
    RoutedInputRequestError,
> {
    if event.serial != route.input_serial {
        Err(RoutedInputRequestError::SerialMismatch)
    } else if route.outcome != InputRouteOutcome::Routed {
        Err(RoutedInputRequestError::RouteNotAccepted)
    } else if !(route.target_surface matches Some(t) && t.spec_valid()) {
        Err(RoutedInputRequestError::MissingTargetSurface)
    } else if route.local_position is None {
        Err(RoutedInputRequestError::MissingLocalPosition)
    } else {
        Ok(
            RoutedInputRequest {
                serial: event.serial,
                seat: event.seat,
                device: event.device,
                time_msec: event.time_msec,
                target_surface: route.target_surface->Some_0,
                global_position: route.global_position,
                local_position: route.local_position->Some_0,
                kind: event.kind,
            },
        )
    }
}

pub fn routed_input_request_from_physical_event(event: &InputEventPacket, route: &InputRoute) -> (request:
    Result<RoutedInputRequest, RoutedInputRequestError>)
    ensures
        request == spec_request_from_route(*event, *route),
{
    if event.serial != route.input_serial {
        return Err(RoutedInputRequestError::SerialMismatch);
    }
    match route.outcome {
        InputRouteOutcome::Routed => {},
        InputRouteOutcome::NoTarget => return Err(RoutedInputRequestError::RouteNotAccepted),
    }
    let target_surface = match route.target_surface {
        Some(t) => if t.is_valid() {
            t
        } else {
            return Err(RoutedInputRequestError::MissingTargetSurface);
        },
        None => return Err(RoutedInputRequestError::MissingTargetSurface),
    };
    let local_position = match route.local_position {
        Some(p) => p,
        None => return Err(RoutedInputRequestError::MissingLocalPosition),
    };
    Ok(
        RoutedInputRequest {
            serial: event.serial,
            seat: event.seat,
            device: event.device,
            time_msec: event.time_msec,
            target_surface,
            global_position: route.global_position,
            local_position,
            kind: event.kind,
        },
    )
}

/// The requests for every released input, in order, or the first error.
pub fn routed_input_requests_from_flush(flush: &RoutedInputFlush) -> (requests: Result<
    Vec<RoutedInputRequest>,
    RoutedInputRequestError,
>)
    ensures
        match requests {
            Ok(rs) => {
                &&& rs@.len() == flush.inputs@.len()
                &&& forall|i: int|
                    0 <= i < rs@.len() ==> spec_request_from_route(
                        (#[trigger] flush.inputs@[i]).event,
                        flush.inputs@[i].route,
                    ) == Ok::<RoutedInputRequest, RoutedInputRequestError>(rs@[i])
            },
            Err(e) => exists|i: int|
                0 <= i < flush.inputs@.len() && spec_request_from_route(
                    (#[trigger] flush.inputs@[i]).event,
                    flush.inputs@[i].route,
                ) == Err::<RoutedInputRequest, RoutedInputRequestError>(e) && forall|j: int|
                    0 <= j < i ==> spec_request_from_route(
                        (#[trigger] flush.inputs@[j]).event,
                        flush.inputs@[j].route,
                    ) is Ok,
        },
{
    let mut requests: Vec<RoutedInputRequest> = Vec::new();
    let mut i: usize = 0;
    while i < flush.inputs.len()
        invariant
            i <= flush.inputs@.len(),
            requests@.len() == i,
            forall|k: int|
                0 <= k < i ==> spec_request_from_route(
                    (#[trigger] flush.inputs@[k]).event,
                    flush.inputs@[k].route,
                ) == Ok::<RoutedInputRequest, RoutedInputRequestError>(requests@[k]),
        decreases flush.inputs@.len() - i,
    {
        let input = &flush.inputs[i];
        match routed_input_request_from_physical_event(&input.event, &input.route) {
            Ok(r) => requests.push(r),
            Err(e) => {
                assert(spec_request_from_route(flush.inputs@[i as int].event, flush.inputs@[i as int].route) is Err);
                return Err(e);
            },
        }
        i = i + 1;
    }
    Ok(requests)
}

/// The kinds of physical devices.
#[derive(Clone, Copy, Debug, PartialEq, Eq, Structural)]
pub enum LibinputDeviceKind {
    Pointer,
    Keyboard,
    Touch,
}

/// A device the session admits input from, on one seat.
#[derive(Clone, Copy, Debug, PartialEq, Eq, Structural)]
pub struct LibinputDeviceDescriptor {
    pub seat: SeatId,
    pub device: DeviceId,
    pub kind: LibinputDeviceKind,
}

/// What happened to one offered event.
#[derive(Clone, Copy, Debug, PartialEq, Eq, Structural)]
pub enum LibinputEventIngest {
    Accepted,
    UnknownDevice,
    SeatMismatch,
}

/// The ingest result of `event` against the registered devices.
pub open spec fn ingest_of(devices: Map<u64, LibinputDeviceDescriptor>, event: InputEventPacket) -> LibinputEventIngest {
    if !devices.contains_key(event.device.raw) {
        LibinputEventIngest::UnknownDevice
    } else if devices[event.device.raw].seat != event.seat {
        LibinputEventIngest::SeatMismatch
    } else {
        LibinputEventIngest::Accepted
    }
}

/// The events of `events` that are accepted, in order.
pub open spec fn accepted_events(devices: Map<u64, LibinputDeviceDescriptor>, events: Seq<InputEventPacket>) -> Seq<
    InputEventPacket,
> {
    events.filter(|e: InputEventPacket| ingest_of(devices, e) == LibinputEventIngest::Accepted)
}

/// The ingest results of the refused events, in order.
pub open spec fn rejections(devices: Map<u64, LibinputDeviceDescriptor>, events: Seq<InputEventPacket>) -> Seq<
    LibinputEventIngest,
> {
    events.map_values(|e: InputEventPacket| ingest_of(devices, e)).filter(
        |r: LibinputEventIngest| r != LibinputEventIngest::Accepted,
    )
}

/// Registered devices and the accepted events not yet drained, oldest first.
pub struct LibinputEventSource {
    devices: BTreeMap<u64, LibinputDeviceDescriptor>,
    pending: Vec<InputEventPacket>,
}

impl LibinputEventSource {
    /// Registered devices keyed by raw device id.
    pub closed spec fn device_map(self) -> Map<u64, LibinputDeviceDescriptor> {
        self.devices@
    }

    /// Accepted events, oldest first.
    pub closed spec fn queue(self) -> Seq<InputEventPacket> {
        self.pending@
    }

    /// Every registered descriptor sits under its own device id.
    pub open spec fn wf(self) -> bool {
        forall|k: u64| #[trigger] self.device_map().contains_key(k) ==> self.device_map()[k].device.raw == k
    }

    pub fn new() -> (source: LibinputEventSource)
        ensures
            source.wf(),
            source.device_map() == Map::<u64, LibinputDeviceDescriptor>::empty(),
            source.queue() == Seq::<InputEventPacket>::empty(),
    {
        LibinputEventSource { devices: BTreeMap::new(), pending: Vec::new() }
    }

    pub fn register_device(&mut self, device: LibinputDeviceDescriptor)
        requires
            old(self).wf(),
        ensures
            final(self).wf(),
            final(self).device_map() == old(self).device_map().insert(device.device.raw, device),
            final(self).queue() == old(self).queue(),
    {
        self.devices.insert(device.device.raw, device);
    }

    pub fn remove_device(&mut self, device: DeviceId) -> (removed: Option<LibinputDeviceDescriptor>)
        requires
            old(self).wf(),
        ensures
            final(self).wf(),
            final(self).device_map() == old(self).device_map().remove(device.raw),
            final(self).queue() == old(self).queue(),
            removed == (if old(self).device_map().contains_key(device.raw) {
                Some(old(self).device_map()[device.raw])
            } else {
                None::<LibinputDeviceDescriptor>
            }),
    {
        self.devices.remove(&device.raw)
    }

    pub fn device(&self, device: DeviceId) -> (found: Option<LibinputDeviceDescriptor>)
        ensures
            found == (if self.device_map().contains_key(device.raw) {
                Some(self.device_map()[device.raw])
            } else {
                None::<LibinputDeviceDescriptor>
            }),
    {
        match self.devices.get(&device.raw) {
            Some(d) => Some(*d),
            None => None,
        }
    }

    /// The registered devices, each once, in increasing device order.
    pub fn devices(&self) -> (devices: Vec<LibinputDeviceDescriptor>)
        requires
            self.wf(),
        ensures
            devices@.len() == self.device_map().dom().len(),
            forall|i: int, j: int| 0 <= i < j < devices@.len() ==> devices@[i].device.raw < devices@[j].device.raw,
            forall|i: int|
                0 <= i < devices@.len() ==> self.device_map().contains_key((#[trigger] devices@[i]).device.raw)
                    && self.device_map()[devices@[i].device.raw] == devices@[i],
            forall|k: u64| #[trigger] self.device_map().contains_key(k) ==> devices@.contains(self.device_map()[k]),
    {
        broadcast use vstd::std_specs::btree::group_btree_axioms;

        let mut devices: Vec<LibinputDeviceDescriptor> = Vec::new();
        let ghost m = self.device_map();
        let it = self.devices.values();
        let ghost keys = choose|key_seq: Seq<u64>|
            {
                &&& vstd::std_specs::btree::increasing_seq(key_seq)
                &&& key_seq.to_set() == m.dom()
                &&& key_seq.no_duplicates()
                &&& vstd::std_specs::iter::IteratorSpec::remaining(&it) == key_seq.map(|i: int, k: u64| &m[k])
            };
        for d in iter: it
            invariant
                m == self.device_map(),
                self.wf(),
                vstd::std_specs::btree::increasing_seq(keys),
                keys.to_set() == m.dom(),
                keys.no_duplicates(),
                iter.seq() == keys.map(|i: int, k: u64| &m[k]),
                devices@.len() == iter.index(),
                forall|i: int| 0 <= i < iter.index() ==> devices@[i] == m[keys[i]],
        {
            devices.push(*d);
        }
        proof {
            assert(devices@.len() == keys.len());
            assert forall|i: int| 0 <= i < devices@.len() implies m.contains_key((#[trigger] devices@[i]).device.raw)
                && m[devices@[i].device.raw] == devices@[i] by {
                assert(keys.to_set().contains(keys[i]));
                assert(m.contains_key(keys[i]));
            }
            assert forall|i: int, j: int| 0 <= i < j < devices@.len() implies devices@[i].device.raw
                < devices@[j].device.raw by {
                broadcast use vstd::laws_cmp::group_laws_cmp;

                assert(keys.to_set().contains(keys[i]));
                assert(keys.to_set().contains(keys[j]));
                assert(vstd::laws_cmp::obeys_cmp::<u64>());
                vstd::std_specs::btree::axiom_increasing_seq_meaning::<u64>(keys);
                assert(devices@[i].device.raw == keys[i]);
                assert(devices@[j].device.raw == keys[j]);
                assert(vstd::std_specs::cmp::OrdSpec::cmp_spec(&keys[i], &keys[j]) is Less);
            }
            assert forall|k: u64| #[trigger] m.contains_key(k) implies devices@.contains(m[k]) by {
                assert(keys.to_set().contains(k));
                let i = choose|i: int| 0 <= i < keys.len() && keys[i] == k;
                assert(devices@[i] == m[k]);
            }
            keys.unique_seq_to_set();
        }
        devices
    }

    /// Admits an event from a registered device on that device's seat.
    pub fn push_event(&mut self, event: InputEventPacket) -> (ingest: LibinputEventIngest)
        ensures
            final(self).device_map() == old(self).device_map(),
            ingest == ingest_of(old(self).device_map(), event),
            final(self).queue() == if ingest == LibinputEventIngest::Accepted {
                old(self).queue().push(event)
            } else {
                old(self).queue()
            },
    {
        let seat = match self.devices.get(&event.device.raw) {
            Some(d) => d.seat,
            None => return LibinputEventIngest::UnknownDevice,
        };
        if seat.raw != event.seat.raw {
            return LibinputEventIngest::SeatMismatch;
        }
        self.pending.push(event);
        LibinputEventIngest::Accepted
    }

    /// Takes every accepted event, oldest first.
    pub fn drain_events(&mut self) -> (events: Vec<InputEventPacket>)
        ensures
            events@ == old(self).queue(),
            final(self).queue() == Seq::<InputEventPacket>::empty(),
            final(self).device_map() == old(self).device_map(),
    {
        let mut events: Vec<InputEventPacket> = Vec::new();
        std::mem::swap(&mut events, &mut self.pending);
        events
    }

    pub fn pending_len(&self) -> (len: usize)
        ensures
            len == self.queue().len(),
    {
        self.pending.len()
    }

    /// Offers each event in turn; returns how many were accepted and the
    /// refusals in order.
    pub fn ingest_all(&mut self, events: Vec<InputEventPacket>) -> (report: (usize, Vec<LibinputEventIngest>))
        ensures
            final(self).device_map() == old(self).device_map(),
            final(self).queue() == old(self).queue() + accepted_events(old(self).device_map(), events@),
            report.0 == accepted_events(old(self).device_map(), events@).len(),
            report.1@ == rejections(old(self).device_map(), events@),
    {
        let ghost devices = self.device_map();
        let mut accepted: usize = 0;
        let mut rejected: Vec<LibinputEventIngest> = Vec::new();
        let mut i: usize = 0;
        while i < events.len()
            invariant
                i <= events@.len(),
                self.device_map() == devices,
                devices == old(self).device_map(),
                self.queue() == old(self).queue() + accepted_events(devices, events@.subrange(0, i as int)),
                accepted == accepted_events(devices, events@.subrange(0, i as int)).len(),
                rejected@ == rejections(devices, events@.subrange(0, i as int)),
            decreases events@.len() - i,
        {
            let ghost prefix = events@.subrange(0, i as int);
            let ghost next = events@.subrange(0, i + 1);
            let ghost e = events@[i as int];
            let ghost accept = |x: InputEventPacket| ingest_of(devices, x) == LibinputEventIngest::Accepted;
            let ghost outcome_of = |x: InputEventPacket| ingest_of(devices, x);
            let ghost refused = |r: LibinputEventIngest| r != LibinputEventIngest::Accepted;
            proof {
                broadcast use vstd::seq_lib::group_filter_ensures;

                assert(next =~= prefix.push(e));
                prefix.lemma_filter_push(e, accept);
                assert(next.map_values(outcome_of) =~= prefix.map_values(outcome_of).push(outcome_of(e)));
                prefix.map_values(outcome_of).lemma_filter_push(outcome_of(e), refused);
            }
            let outcome = self.push_event(events[i]);
            match outcome {
                LibinputEventIngest::Accepted => {
                    accepted = accepted + 1;
                },
                _ => rejected.push(outcome),
            }
            i = i + 1;
        }
        assert(events@.subrange(0, events@.len() as int) =~= events@);
        (accepted, rejected)
    }
}

/// How one poll went.
#[derive(Clone, Debug, PartialEq, Eq)]
pub struct LibinputPollReport {
    pub polled: usize,
    pub accepted: usize,
    pub rejected: Vec<LibinputEventIngest>,
}

/// A source of ready input events that never blocks.
pub trait NonBlockingInputPoller {
    fn poll_ready(&mut self) -> Result<Vec<InputEventPacket>, std::io::Error>;
}

/// A physical input device poller feeding an event source.
pub struct LibinputPhysicalInputAdapter<P> {
    poller: P,
    source: LibinputEventSource,
}

impl<P> LibinputPhysicalInputAdapter<P> {
    pub closed spec fn spec_source(self) -> LibinputEventSource {
        self.source
    }

    pub closed spec fn spec_poller(self) -> P {
        self.poller
    }

    pub fn new(poller: P, source: LibinputEventSource) -> (adapter: LibinputPhysicalInputAdapter<P>)
        ensures
            adapter.spec_source() == source,
            adapter.spec_poller() == poller,
    {
        LibinputPhysicalInputAdapter { poller, source }
    }

    pub fn source(&self) -> (source: &LibinputEventSource)
        ensures
            *source == self.spec_source(),
    {
        &self.source
    }

    pub fn source_mut(&mut self) -> (source: &mut LibinputEventSource)
        ensures
            *source == old(self).spec_source(),
            final(self).spec_source() == *final(source),
            final(self).spec_poller() == old(self).spec_poller(),
    {
        &mut self.source
    }

    pub fn into_source(self) -> (source: LibinputEventSource)
        ensures
            source == self.spec_source(),
    {
        self.source
    }
}

impl<P: NonBlockingInputPoller> LibinputPhysicalInputAdapter<P> {
    /// Offers whatever the poller has ready to the source. A poll failure
    /// leaves the source as it was.
    pub fn poll_once(&mut self) -> (report: Result<LibinputPollReport, std::io::Error>)
        ensures
            final(self).spec_source().device_map() == old(self).spec_source().device_map(),
            match report {
                Ok(r) => exists|events: Seq<InputEventPacket>|
                    {
                        &&& r.polled == events.len()
                        &&& r.accepted == accepted_events(old(self).spec_source().device_map(), events).len()
                        &&& r.rejected@ == rejections(old(self).spec_source().device_map(), events)
                        &&& final(self).spec_source().queue() == old(self).spec_source().queue() + accepted_events(
                            old(self).spec_source().device_map(),
                            events,
                        )
                    },
                Err(_) => final(self).spec_source().queue() == old(self).spec_source().queue(),
            },
    {
        let events = match self.poller.poll_ready() {
            Ok(events) => events,
            Err(e) => return Err(e),
        };
        let ghost polled_events = events@;
        let polled = events.len();
        let (accepted, rejected) = self.source.ingest_all(events);
        Ok(LibinputPollReport { polled, accepted, rejected })
    }
}

/// A poller over a queue of events already received.
pub struct QueuedInputPoller {
    queued: Vec<InputEventPacket>,
}

impl QueuedInputPoller {
    pub closed spec fn spec_queued(self) -> Seq<InputEventPacket> {
        self.queued@
    }

    pub fn new(queued: Vec<InputEventPacket>) -> (poller: QueuedInputPoller)
        ensures
            poller.spec_queued() == queued@,
    {
        QueuedInputPoller { queued }
    }

    pub fn push(&mut self, event: InputEventPacket)
        ensures
            final(self).spec_queued() == old(self).spec_queued().push(event),
    {
        self.queued.push(event);
    }

    pub fn queued_len(&self) -> (len: usize)
        ensures
            len == self.spec_queued().len(),
    {
        self.queued.len()
    }

    /// Hands out every queued event, oldest first.
    pub fn take_ready(&mut self) -> (events: Vec<InputEventPacket>)
        ensures
            events@ == old(self).spec_queued(),
            final(self).spec_queued() == Seq::<InputEventPacket>::empty(),
    {
        let mut events: Vec<InputEventPacket> = Vec::new();
        std::mem::swap(&mut events, &mut self.queued);
        events
    }
}

impl NonBlockingInputPoller for QueuedInputPoller {
    /// Hands out every queued event, oldest first; it never fails.
    fn poll_ready(&mut self) -> (events: Result<Vec<InputEventPacket>, std::io::Error>)
        ensures
            events matches Ok(v) && v@ == old(self).spec_queued(),
            final(self).spec_queued() == Seq::<InputEventPacket>::empty(),
    {
        Ok(self.take_ready())
    }
}

} // verus!
