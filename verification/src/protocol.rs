//! The value types that flow between the engine, its protocol authorities
//! and the window manager. Identifiers are plain integers: a raw value of
//! zero (or a generation of zero) names nothing.

use vstd::prelude::*;

verus! {

/// A generational surface handle. A handle with generation zero names no surface.
#[derive(Clone, Copy, Debug, PartialEq, Eq, Structural)]
pub struct SurfaceId {
    pub index: u32,
    pub generation: u32,
}

impl SurfaceId {
    /// The handle that names no surface.
    pub fn invalid() -> (id: SurfaceId)
        ensures
            !id.spec_valid(),
    {
        SurfaceId { index: 0, generation: 0 }
    }

    pub open spec fn spec_valid(self) -> bool {
        self.generation != 0
    }

    /// Surfaces are ordered by index, then by generation.
    pub open spec fn spec_lt(self, other: SurfaceId) -> bool {
        self.index < other.index || (self.index == other.index && self.generation
            < other.generation)
    }

    pub fn new(index: u32, generation: u32) -> (id: SurfaceId)
        ensures
            id.index == index,
            id.generation == generation,
    {
        SurfaceId { index, generation }
    }

    pub fn is_valid(&self) -> (valid: bool)
        ensures
            valid == self.spec_valid(),
    {
        self.generation != 0
    }

    pub fn precedes(&self, other: &SurfaceId) -> (lt: bool)
        ensures
            lt == self.spec_lt(*other),
    {
        self.index < other.index || (self.index == other.index && self.generation
            < other.generation)
    }

    pub fn same(&self, other: &SurfaceId) -> (eq: bool)
        ensures
            eq == (*self == *other),
    {
        self.index == other.index && self.generation == other.generation
    }
}

/// A display output.
#[derive(Clone, Copy, Debug, PartialEq, Eq, Structural)]
pub struct OutputId {
    pub raw: u64,
}

impl OutputId {
    pub open spec fn spec_valid(self) -> bool {
        self.raw != 0
    }

    pub fn from_raw(raw: u64) -> (id: OutputId)
        ensures
            id.raw == raw,
    {
        OutputId { raw }
    }

    pub fn is_valid(&self) -> (valid: bool)
        ensures
            valid == self.spec_valid(),
    {
        self.raw != 0
    }
}

/// A layout or authority transaction.
#[derive(Clone, Copy, Debug, PartialEq, Eq, Structural)]
pub struct TransactionId {
    pub raw: u64,
}

impl TransactionId {
    pub fn from_raw(raw: u64) -> (id: TransactionId)
        ensures
            id.raw == raw,
    {
        TransactionId { raw }
    }
}

/// A portal transfer (for example one notification delivery).
#[derive(Clone, Copy, Debug, PartialEq, Eq, Structural)]
pub struct PortalTransferId {
    pub raw: u64,
}

impl PortalTransferId {
    pub open spec fn spec_valid(self) -> bool {
        self.raw != 0
    }

    pub fn from_raw(raw: u64) -> (id: PortalTransferId)
        ensures
            id.raw == raw,
    {
        PortalTransferId { raw }
    }

    pub fn is_valid(&self) -> (valid: bool)
        ensures
            valid == self.spec_valid(),
    {
        self.raw != 0
    }
}

/// A physical input device.
#[derive(Clone, Copy, Debug, PartialEq, Eq, Structural)]
pub struct DeviceId {
    pub raw: u64,
}

impl DeviceId {
    pub fn from_raw(raw: u64) -> (id: DeviceId)
        ensures
            id.raw == raw,
    {
        DeviceId { raw }
    }
}

/// An input seat.
#[derive(Clone, Copy, Debug, PartialEq, Eq, Structural)]
pub struct SeatId {
    pub raw: u64,
}

impl SeatId {
    pub fn from_raw(raw: u64) -> (id: SeatId)
        ensures
            id.raw == raw,
    {
        SeatId { raw }
    }
}

/// A workspace of the window manager.
#[derive(Clone, Copy, Debug, PartialEq, Eq, Structural)]
pub struct WorkspaceId {
    pub raw: u64,
}

impl WorkspaceId {
    pub fn from_raw(raw: u64) -> (id: WorkspaceId)
        ensures
            id.raw == raw,
    {
        WorkspaceId { raw }
    }
}

/// A generational X window handle of the X authority.
#[derive(Clone, Copy, Debug, PartialEq, Eq, Structural)]
pub struct XWindowId {
    pub xid: u32,
    pub generation: u32,
}

impl XWindowId {
    pub open spec fn spec_valid(self) -> bool {
        self.xid != 0 && self.generation != 0
    }

    pub fn new(xid: u32, generation: u32) -> (id: XWindowId)
        ensures
            id.xid == xid,
            id.generation == generation,
    {
        XWindowId { xid, generation }
    }

    pub fn is_valid(&self) -> (valid: bool)
        ensures
            valid == self.spec_valid(),
    {
        self.xid != 0 && self.generation != 0
    }
}

/// A rectangle in logical or pixel coordinates.
#[derive(Clone, Copy, Debug, PartialEq, Eq, Structural)]
pub struct Rect {
    pub x: i32,
    pub y: i32,
    pub width: i32,
    pub height: i32,
}

impl Rect {
    pub open spec fn spec_empty(self) -> bool {
        self.width <= 0 || self.height <= 0
    }

    pub fn is_empty(&self) -> (empty: bool)
        ensures
            empty == self.spec_empty(),
    {
        self.width <= 0 || self.height <= 0
    }
}

/// A width and height.
#[derive(Clone, Copy, Debug, PartialEq, Eq, Structural)]
pub struct Size {
    pub width: i32,
    pub height: i32,
}

/// A set of rectangles, kept in the order they were added.
#[derive(Clone, Debug, PartialEq, Eq)]
pub struct Region {
    pub rects: Vec<Rect>,
}

impl Region {
    /// A region is empty when none of its rectangles covers any area.
    pub open spec fn spec_empty(self) -> bool {
        forall|i: int| 0 <= i < self.rects@.len() ==> (#[trigger] self.rects@[i]).spec_empty()
    }

    pub fn empty() -> (region: Region)
        ensures
            region.rects@ == Seq::<Rect>::empty(),
    {
        Region { rects: Vec::new() }
    }

    pub fn single(rect: Rect) -> (region: Region)
        ensures
            region.rects@ == seq![rect],
    {
        let mut rects = Vec::new();
        rects.push(rect);
        Region { rects }
    }

    pub fn is_empty(&self) -> (empty: bool)
        ensures
            empty == self.spec_empty(),
    {
        let mut i: usize = 0;
        while i < self.rects.len()
            invariant
                i <= self.rects@.len(),
                forall|j: int| 0 <= j < i ==> (#[trigger] self.rects@[j]).spec_empty(),
            decreases self.rects@.len() - i,
        {
            if !self.rects[i].is_empty() {
                return false;
            }
            i = i + 1;
        }
        true
    }

    /// A copy of this region.
    pub fn copied(&self) -> (region: Region)
        ensures
            region.rects@ == self.rects@,
    {
        let mut rects: Vec<Rect> = Vec::new();
        let mut i: usize = 0;
        while i < self.rects.len()
            invariant
                i <= self.rects@.len(),
                rects@ == self.rects@.subrange(0, i as int),
            decreases self.rects@.len() - i,
        {
            rects.push(self.rects[i]);
            i = i + 1;
        }
        assert(rects@ =~= self.rects@);
        Region { rects }
    }

    /// Appends the rectangles of `other` to this region.
    pub fn extend(&mut self, other: &Region)
        ensures
            final(self).rects@ == old(self).rects@ + other.rects@,
    {
        let mut i: usize = 0;
        while i < other.rects.len()
            invariant
                i <= other.rects@.len(),
                self.rects@ == old(self).rects@ + other.rects@.subrange(0, i as int),
            decreases other.rects@.len() - i,
        {
            self.rects.push(other.rects[i]);
            i = i + 1;
        }
        assert(other.rects@.subrange(0, other.rects@.len() as int) =~= other.rects@);
    }
}

/// The damage an output accumulated for one frame.
#[derive(Clone, Debug, PartialEq, Eq)]
pub struct DamageFrame {
    pub output: OutputId,
    pub frame_serial: u64,
    pub buffer_age: u32,
    pub root_generation: u64,
    pub affected_surfaces: Vec<SurfaceId>,
    pub damage: Region,
}

/// How a layout or authority transaction ended.
#[derive(Clone, Copy, Debug, PartialEq, Eq, Structural)]
pub enum TransactionOutcome {
    Committed,
    RejectedInvalidSurface,
    RejectedStaleSurface,
    TimedOut,
}

/// The result of committing a transaction: which surfaces it changed.
#[derive(Clone, Debug, PartialEq, Eq)]
pub struct TransactionCommit {
    pub transaction: TransactionId,
    pub outcome: TransactionOutcome,
    pub applied_surfaces: Vec<SurfaceId>,
}

/// Whether the pixels a surface transaction waits for have arrived.
#[derive(Clone, Copy, Debug, PartialEq, Eq, Structural)]
pub enum SurfaceTransactionReadiness {
    Ready,
    Pending,
    TimedOut,
    Failed,
}

/// How a surface synchronises its pixels with a resize.
#[derive(Clone, Copy, Debug, PartialEq, Eq, Structural)]
pub enum ResizeSyncCapability {
    ImplicitOnly,
    ExplicitSync,
}

/// Where a surface's pixels live.
#[derive(Clone, Copy, Debug, PartialEq, Eq, Structural)]
pub enum BufferSource {
    Absent,
    CpuBuffer { handle: u64 },
    DmaBuf { handle: u64 },
    XPixmap { handle: u64 },
}

/// One surface's part of an authority transaction.
#[derive(Clone, Debug, PartialEq, Eq)]
pub struct SurfaceTransaction {
    pub transaction: TransactionId,
    pub surface: SurfaceId,
    pub previous_committed_generation: u64,
    pub target_geometry: Rect,
    pub target_buffer: BufferSource,
    pub damage: Region,
    pub readiness: SurfaceTransactionReadiness,
}

/// The state of a surface that the engine last committed.
#[derive(Clone, Debug, PartialEq, Eq)]
pub struct CommittedSurfaceState {
    pub surface: SurfaceId,
    pub committed_generation: u64,
    pub geometry: Rect,
    pub buffer: BufferSource,
    pub damage: Region,
}

/// A committed surface state as plain values.
pub struct CommittedSurfaceStateView {
    pub surface: SurfaceId,
    pub committed_generation: u64,
    pub geometry: Rect,
    pub buffer: BufferSource,
    pub damage: Seq<Rect>,
}

impl View for CommittedSurfaceState {
    type V = CommittedSurfaceStateView;

    open spec fn view(&self) -> CommittedSurfaceStateView {
        CommittedSurfaceStateView {
            surface: self.surface,
            committed_generation: self.committed_generation,
            geometry: self.geometry,
            buffer: self.buffer,
            damage: self.damage.rects@,
        }
    }
}

impl CommittedSurfaceState {
    /// A copy of this state.
    pub fn copied(&self) -> (c: CommittedSurfaceState)
        ensures
            c@ == self@,
    {
        CommittedSurfaceState {
            surface: self.surface,
            committed_generation: self.committed_generation,
            geometry: self.geometry,
            buffer: self.buffer,
            damage: self.damage.copied(),
        }
    }
}

/// A renderable layer of the scene, as far as layout, scheduling and
/// stacking read it.
#[derive(Clone, Debug, PartialEq, Eq)]
pub struct LayerSnapshot {
    pub surface: SurfaceId,
    pub window: Option<XWindowId>,
    pub stack_rank: u32,
    pub geometry: Rect,
    pub source: BufferSource,
    pub damage: Region,
    pub crop: Option<Rect>,
    /// The layer's opacity, an `f32` carried as its IEEE-754 bit pattern.
    pub opacity_bits: u32,
    pub generation: u64,
    pub resize_sync: ResizeSyncCapability,
}

/// A layer as plain values.
pub struct LayerSnapshotView {
    pub surface: SurfaceId,
    pub window: Option<XWindowId>,
    pub stack_rank: u32,
    pub geometry: Rect,
    pub source: BufferSource,
    pub damage: Seq<Rect>,
    pub crop: Option<Rect>,
    pub opacity_bits: u32,
    pub generation: u64,
    pub resize_sync: ResizeSyncCapability,
}

impl View for LayerSnapshot {
    type V = LayerSnapshotView;

    open spec fn view(&self) -> LayerSnapshotView {
        LayerSnapshotView {
            surface: self.surface,
            window: self.window,
            stack_rank: self.stack_rank,
            geometry: self.geometry,
            source: self.source,
            damage: self.damage.rects@,
            crop: self.crop,
            opacity_bits: self.opacity_bits,
            generation: self.generation,
            resize_sync: self.resize_sync,
        }
    }
}

impl LayerSnapshot {
    /// A copy of this layer.
    pub fn copied(&self) -> (c: LayerSnapshot)
        ensures
            c@ == self@,
    {
        LayerSnapshot {
            surface: self.surface,
            window: self.window,
            stack_rank: self.stack_rank,
            geometry: self.geometry,
            source: self.source,
            damage: self.damage.copied(),
            crop: self.crop,
            opacity_bits: self.opacity_bits,
            generation: self.generation,
            resize_sync: self.resize_sync,
        }
    }
}

/// The views of a sequence of layers.
pub open spec fn layer_views(layers: Seq<LayerSnapshot>) -> Seq<LayerSnapshotView> {
    layers.map_values(|l: LayerSnapshot| l@)
}

/// The views of a sequence of committed states.
pub open spec fn committed_views(states: Seq<CommittedSurfaceState>) -> Seq<CommittedSurfaceStateView> {
    states.map_values(|s: CommittedSurfaceState| s@)
}

} // verus!
