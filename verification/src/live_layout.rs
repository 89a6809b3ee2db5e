//! The live session's layout: the layers the X authority has shown, each
//! surface's last reported size, the surfaces the window manager has not
//! placed yet, and at most one window-manager layout that waits for clients
//! to reach the sizes it asked for. A layout is committed only once every
//! requested size has been observed, or it times out and the layers stay.

use vstd::prelude::*;

use std::collections::BTreeMap;

use crate::chrome::{key_of, lemma_surface_key_injective, surface_key};
use crate::engine::{
    HeadlessEngine, LayoutTransaction, SurfacePlacement, SurfaceSizeRequest, apply_placements, layer_surfaces,
    placements_valid,
};
use crate::num::{clamp_i32, sat_add_i32, saturating_add_u64};
use crate::output::HeadlessOutput;
use crate::protocol::{
    LayerSnapshot, LayerSnapshotView, Rect, ResizeSyncCapability, Size, SurfaceId, SurfaceTransaction, TransactionId,
    TransactionCommit, TransactionOutcome, layer_views,
};
use crate::scene::{
    LiveWmTransactionError, OPACITY_ONE_BITS, XAuthorityObservedTransactionBatch, live_layout_node,
    live_wm_transaction_error, node_of_layer, output_bounds, rank_for, rank_of_index, validate_live_wm_transaction,
};
use crate::surface_set::{sorted_insert, strictly_sorted};
use crate::protocol::WorkspaceId;
use crate::wm::{WmManageSurface, WmRelayoutWorkspace, WmRequestKind, WmRequestPacket, WmTransactionUpdate};

verus! {

broadcast use vstd::seq_lib::group_seq_properties;

/// The size a geometry gives a surface.
pub open spec fn size_of_rect(r: Rect) -> Size {
    Size { width: r.width, height: r.height }
}

/// Where a newly shown surface first appears: where the authority put it,
/// or staged 80 right and 60 down (saturating) when the session staggers
/// new surfaces.
pub open spec fn staged_geometry(r: Rect, offset: bool) -> Rect {
    if offset {
        Rect { x: clamp_i32(r.x + 80), y: clamp_i32(r.y + 60), width: r.width, height: r.height }
    } else {
        r
    }
}

/// The layer a surface first shown by the `index`-th transaction of a
/// batch gets: opaque, untransformed, ranked by its place in the batch.
pub open spec fn new_live_layer(t: SurfaceTransaction, index: int, offset: bool) -> LayerSnapshotView {
    LayerSnapshotView {
        surface: t.surface,
        window: None,
        stack_rank: rank_of_index(index),
        geometry: staged_geometry(t.target_geometry, offset),
        source: t.target_buffer,
        damage: t.damage.rects@,
        crop: None,
        opacity_bits: OPACITY_ONE_BITS,
        generation: saturating_add_u64(t.previous_committed_generation, 1),
        resize_sync: ResizeSyncCapability::ImplicitOnly,
    }
}

/// A known layer after the authority showed new content for it: the
/// buffer, damage and generation follow the transaction; placement stays.
pub open spec fn refreshed_live_layer(layer: LayerSnapshotView, t: SurfaceTransaction) -> LayerSnapshotView {
    LayerSnapshotView {
        source: t.target_buffer,
        damage: t.damage.rects@,
        generation: saturating_add_u64(t.previous_committed_generation, 1),
        ..layer
    }
}

/// What observing authority transactions has built up: the layers and
/// sizes by surface key, the surfaces not yet placed, and the surfaces
/// seen for the first time, in order.
pub struct ObservedLayout {
    pub layers: Map<u64, LayerSnapshotView>,
    pub sizes: Map<u64, Size>,
    pub unmanaged: Set<SurfaceId>,
    pub new_surfaces: Seq<SurfaceId>,
}

/// The effect of the `index`-th transaction of a batch.
pub open spec fn observe_one(s: ObservedLayout, index: int, t: SurfaceTransaction, offset: bool) -> ObservedLayout {
    let k = surface_key(t.surface);
    let sizes = s.sizes.insert(k, size_of_rect(t.target_geometry));
    if s.layers.contains_key(k) {
        ObservedLayout {
            layers: s.layers.insert(k, refreshed_live_layer(s.layers[k], t)),
            sizes,
            unmanaged: s.unmanaged,
            new_surfaces: s.new_surfaces,
        }
    } else {
        ObservedLayout {
            layers: s.layers.insert(k, new_live_layer(t, index, offset)),
            sizes,
            unmanaged: s.unmanaged.insert(t.surface),
            new_surfaces: s.new_surfaces.push(t.surface),
        }
    }
}

/// The effect of a batch's transactions, taken in order.
pub open spec fn observe_all(s: ObservedLayout, ts: Seq<SurfaceTransaction>, offset: bool) -> ObservedLayout
    decreases ts.len(),
{
    if ts.len() == 0 {
        s
    } else {
        observe_one(observe_all(s, ts.drop_last(), offset), ts.len() - 1, ts.last(), offset)
    }
}

/// The surfaces of size requests, in order.
pub open spec fn request_surfaces(rs: Seq<SurfaceSizeRequest>) -> Seq<SurfaceId> {
    rs.map_values(|r: SurfaceSizeRequest| r.surface)
}

/// The size each surface was last asked to take.
pub open spec fn requests_map(rs: Seq<SurfaceSizeRequest>) -> Map<SurfaceId, Size>
    decreases rs.len(),
{
    if rs.len() == 0 {
        Map::empty()
    } else {
        requests_map(rs.drop_last()).insert(rs.last().surface, rs.last().size)
    }
}

/// Requests for distinct surfaces map each surface to its own request.
proof fn lemma_requests_map_distinct(rs: Seq<SurfaceSizeRequest>)
    requires
        strictly_sorted(request_surfaces(rs)),
    ensures
        forall|i: int|
            0 <= i < rs.len() ==> requests_map(rs).contains_key(#[trigger] rs[i].surface) && requests_map(rs)[rs[i].surface]
                == rs[i].size,
        forall|s: SurfaceId| #[trigger]
            requests_map(rs).contains_key(s) ==> exists|i: int| 0 <= i < rs.len() && rs[i].surface == s,
    decreases rs.len(),
{
    if rs.len() > 0 {
        let init = rs.drop_last();
        let n = rs.len() - 1;
        assert forall|a: int, b: int| 0 <= a < b < init.len() implies (#[trigger] request_surfaces(init)[a]).spec_lt(
            #[trigger] request_surfaces(init)[b],
        ) by {
            assert(request_surfaces(rs)[a] == request_surfaces(init)[a]);
            assert(request_surfaces(rs)[b] == request_surfaces(init)[b]);
        }
        lemma_requests_map_distinct(init);
        assert forall|i: int| 0 <= i < rs.len() implies requests_map(rs).contains_key(#[trigger] rs[i].surface)
            && requests_map(rs)[rs[i].surface] == rs[i].size by {
            if i < n {
                assert(request_surfaces(rs)[i].spec_lt(request_surfaces(rs)[n]));
                assert(init[i] == rs[i]);
            }
        }
        assert forall|s: SurfaceId| #[trigger] requests_map(rs).contains_key(s) implies exists|i: int|
            0 <= i < rs.len() && rs[i].surface == s by {
            if s != rs[n].surface {
                assert(requests_map(init).contains_key(s));
                let j = choose|j: int| 0 <= j < init.len() && init[j].surface == s;
                assert(init[j] == rs[j]);
                assert(rs[j].surface == s);
            } else {
                assert(rs[n].surface == s);
            }
        }
    }
}

/// Adds a request, replacing an earlier one for the same surface, keeping
/// the requests sorted by surface.
fn upsert_request(v: &mut Vec<SurfaceSizeRequest>, r: SurfaceSizeRequest)
    requires
        strictly_sorted(request_surfaces(old(v)@)),
    ensures
        strictly_sorted(request_surfaces(final(v)@)),
        requests_map(final(v)@) == requests_map(old(v)@).insert(r.surface, r.size),
{
    let ghost before = v@;
    let mut i: usize = 0;
    while i < v.len() && v[i].surface.precedes(&r.surface)
        invariant
            i <= v@.len(),
            v@ == before,
            strictly_sorted(request_surfaces(v@)),
            forall|j: int| 0 <= j < i ==> (#[trigger] v@[j]).surface.spec_lt(r.surface),
        decreases v@.len() - i,
    {
        i = i + 1;
    }
    proof {
        lemma_requests_map_distinct(before);
    }
    if i < v.len() && v[i].surface.same(&r.surface) {
        v.set(i, r);
        assert(v@ == before.update(i as int, r));
        assert forall|a: int, b: int| 0 <= a < b < v@.len() implies (#[trigger] request_surfaces(v@)[a]).spec_lt(
            #[trigger] request_surfaces(v@)[b],
        ) by {
            assert(request_surfaces(before)[a].spec_lt(request_surfaces(before)[b]));
        }
    } else {
        v.insert(i, r);
        assert(v@ == before.insert(i as int, r));
        assert forall|a: int, b: int| 0 <= a < b < v@.len() implies (#[trigger] request_surfaces(v@)[a]).spec_lt(
            #[trigger] request_surfaces(v@)[b],
        ) by {
            if b < i {
                assert(request_surfaces(before)[a].spec_lt(request_surfaces(before)[b]));
            } else if b == i {
            } else if a < i {
                assert(before[a].surface.spec_lt(r.surface));
                assert(r.surface.spec_lt(before[i as int].surface));
                assert(request_surfaces(before)[i as int].spec_lt(request_surfaces(before)[b - 1]) || i == b - 1);
            } else if a == i {
                assert(r.surface.spec_lt(before[i as int].surface));
                assert(request_surfaces(before)[i as int].spec_lt(request_surfaces(before)[b - 1]) || i == b - 1);
            } else {
                assert(request_surfaces(before)[a - 1].spec_lt(request_surfaces(before)[b - 1]));
            }
        }
    }
    proof {
        let after = v@;
        lemma_requests_map_distinct(after);
        let target = requests_map(before).insert(r.surface, r.size);
        assert forall|s: SurfaceId| #[trigger] requests_map(after).contains_key(s) <==> target.contains_key(s) by {
            if requests_map(after).contains_key(s) {
                let j = choose|j: int| 0 <= j < after.len() && after[j].surface == s;
                if s != r.surface {
                    if j < i {
                        assert(before[j].surface == s);
                    } else if after.len() == before.len() {
                        assert(before[j].surface == s);
                    } else {
                        assert(j != i);
                        assert(before[j - 1].surface == s);
                    }
                }
            }
            if target.contains_key(s) && s != r.surface {
                let j = choose|j: int| 0 <= j < before.len() && before[j].surface == s;
                if after.len() == before.len() {
                    assert(after[j].surface == s);
                } else if j < i {
                    assert(after[j].surface == s);
                } else {
                    assert(after[j + 1].surface == s);
                }
            }
            if s == r.surface {
                assert(after[i as int].surface == s);
            }
        }
        assert forall|s: SurfaceId| #[trigger] requests_map(after).contains_key(s) implies requests_map(after)[s]
            == target[s] by {
            let j = choose|j: int| 0 <= j < after.len() && after[j].surface == s;
            if s == r.surface {
                assert(after[i as int].surface == s);
                if j != i {
                    if j < i {
                        assert(request_surfaces(after)[j].spec_lt(request_surfaces(after)[i as int]));
                    } else {
                        assert(request_surfaces(after)[i as int].spec_lt(request_surfaces(after)[j]));
                    }
                }
            } else if after.len() == before.len() {
                assert(before[j] == after[j]);
            } else if j < i {
                assert(before[j] == after[j]);
            } else {
                assert(j != i);
                assert(before[j - 1] == after[j]);
            }
        }
        assert(requests_map(after) =~= target);
    }
}

/// The requests sorted by surface, the last request for a surface winning.
fn sorted_requests(rs: &Vec<SurfaceSizeRequest>) -> (out: Vec<SurfaceSizeRequest>)
    ensures
        strictly_sorted(request_surfaces(out@)),
        requests_map(out@) == requests_map(rs@),
{
    let mut out: Vec<SurfaceSizeRequest> = Vec::new();
    let mut i: usize = 0;
    assert(requests_map(rs@.subrange(0, 0)) =~= Map::<SurfaceId, Size>::empty());
    while i < rs.len()
        invariant
            i <= rs@.len(),
            strictly_sorted(request_surfaces(out@)),
            requests_map(out@) == requests_map(rs@.subrange(0, i as int)),
        decreases rs@.len() - i,
    {
        upsert_request(&mut out, rs[i]);
        assert(rs@.subrange(0, i + 1).drop_last() =~= rs@.subrange(0, i as int));
        i = i + 1;
    }
    assert(rs@.subrange(0, rs@.len() as int) =~= rs@);
    out
}

/// The most commands one window-manager response may carry in a live session.
pub const MAX_LIVE_WM_COMMANDS: usize = 8192;

/// Why a window-manager response did not become a live proposal.
#[derive(Clone, Copy, Debug, PartialEq, Eq, Structural)]
pub enum LiveWmProposalError {
    TooManyCommands,
    Invalid(LiveWmTransactionError),
    Rejected(TransactionOutcome),
}

/// How long a live proposal may wait for its sizes: the window manager's
/// timeout, kept between 100 ms and 2 s.
pub open spec fn live_timeout_msec(timeout: u32) -> u64 {
    if timeout < 100 {
        100
    } else if timeout > 2000 {
        2000
    } else {
        timeout as u64
    }
}

/// How many proposed layers move a surface that has a layer now.
pub open spec fn moved_count(layers: Map<u64, LayerSnapshotView>, proposed: Seq<LayerSnapshotView>) -> nat
    decreases proposed.len(),
{
    if proposed.len() == 0 {
        0
    } else {
        let l = proposed.last();
        let k = surface_key(l.surface);
        moved_count(layers, proposed.drop_last()) + if layers.contains_key(k) && layers[k].geometry != l.geometry {
            1nat
        } else {
            0nat
        }
    }
}

/// `p` is the proposal a valid layout transaction `t` makes of the live
/// layers (`ordered`, and by key `layers`): the layers after the
/// placements, the commit that produced them, the requested sizes sorted
/// by surface with the last request winning, the focus, the bounded
/// timeout and the number of surfaces that move.
pub open spec fn is_live_proposal(
    ordered: Seq<LayerSnapshotView>,
    layers: Map<u64, LayerSnapshotView>,
    t: LayoutTransaction,
    p: LiveWmProposal,
) -> bool {
    &&& p.transaction == t.transaction
    &&& layer_views(p.layers@) == apply_placements(ordered, t.render_positions@)
    &&& p.update.ipc_error is None
    &&& p.update.commit.transaction == t.transaction
    &&& p.update.commit.outcome == TransactionOutcome::Committed
    &&& p.update.commit.applied_surfaces@ == t.render_positions@.map_values(|q: SurfacePlacement| q.surface)
    &&& strictly_sorted(request_surfaces(p.requested_sizes@))
    &&& requests_map(p.requested_sizes@) == requests_map(t.requested_sizes@)
    &&& p.focus == t.focus
    &&& p.timeout_msec == live_timeout_msec(t.timeout_msec)
    &&& p.moved_surfaces == moved_count(layers, layer_views(p.layers@))
}

fn live_timeout(timeout: u32) -> (msec: u64)
    ensures
        msec == live_timeout_msec(timeout),
{
    if timeout < 100 {
        100
    } else if timeout > 2000 {
        2000
    } else {
        timeout as u64
    }
}

/// A layout the window manager proposed, checked and applied to a copy of
/// the live layers, with the sizes it asks clients to adopt.
#[derive(Clone, Debug, PartialEq, Eq)]
pub struct LiveWmProposal {
    pub transaction: TransactionId,
    pub layers: Vec<LayerSnapshot>,
    pub requested_sizes: Vec<SurfaceSizeRequest>,
    pub focus: Option<SurfaceId>,
    pub timeout_msec: u64,
    pub update: WmTransactionUpdate,
    pub moved_surfaces: usize,
}

/// A proposal waiting for clients to reach the sizes it asked for.
#[derive(Clone, Debug, PartialEq, Eq)]
pub struct PendingLiveWmLayout {
    pub transaction: TransactionId,
    pub layers: Vec<LayerSnapshot>,
    pub requested_sizes: Vec<SurfaceSizeRequest>,
    pub focus: Option<SurfaceId>,
    pub deadline_msec: u64,
    pub update: WmTransactionUpdate,
    pub moved_surfaces: usize,
}

/// Whether the authority has reported every requested size.
pub open spec fn sizes_reached(sizes: Map<u64, Size>, rs: Seq<SurfaceSizeRequest>) -> bool {
    forall|i: int|
        0 <= i < rs.len() ==> sizes.contains_key(surface_key(#[trigger] rs[i].surface)) && sizes[surface_key(
            rs[i].surface,
        )] == rs[i].size
}

/// Whether the authority has reported `r`'s size for its surface.
pub open spec fn size_confirmed(sizes: Map<u64, Size>, r: SurfaceSizeRequest) -> bool {
    sizes.contains_key(surface_key(r.surface)) && sizes[surface_key(r.surface)] == r.size
}

/// The requests whose size the authority has not reported, in order.
pub open spec fn unconfirmed_requests(sizes: Map<u64, Size>, rs: Seq<SurfaceSizeRequest>) -> Seq<SurfaceSizeRequest> {
    rs.filter(|r: SurfaceSizeRequest| !size_confirmed(sizes, r))
}

/// The size last reported for `surface`, or 0x0 when none was.
pub open spec fn observed_size(sizes: Map<u64, Size>, surface: SurfaceId) -> Size {
    if sizes.contains_key(surface_key(surface)) {
        sizes[surface_key(surface)]
    } else {
        Size { width: 0, height: 0 }
    }
}

/// The layers of a committed layout by surface key, a later layer of a
/// surface replacing an earlier one.
pub open spec fn layers_by_key(ls: Seq<LayerSnapshotView>) -> Map<u64, LayerSnapshotView>
    decreases ls.len(),
{
    if ls.len() == 0 {
        Map::empty()
    } else {
        layers_by_key(ls.drop_last()).insert(surface_key(ls.last().surface), ls.last())
    }
}

/// A committed live layout, with what the session reports of it.
#[derive(Clone, Debug, PartialEq, Eq)]
pub struct LiveLayoutCommit {
    pub update: WmTransactionUpdate,
    pub surfaces: usize,
    pub moved_surfaces: usize,
    pub configure_acks: usize,
}

/// How far one surface got towards the size it was asked to take.
#[derive(Clone, Copy, Debug, PartialEq, Eq, Structural)]
pub struct SizeProgress {
    pub surface: SurfaceId,
    pub expected: Size,
    pub observed: Size,
}

/// A pending layout that ran out of time: the layers stayed as they were.
#[derive(Clone, Debug, PartialEq, Eq)]
pub struct LiveLayoutTimeout {
    pub transaction: TransactionId,
    pub resize_state: Vec<SizeProgress>,
    pub update: WmTransactionUpdate,
}

/// What committing `layers` for `transaction` leaves in `after`, starting
/// from `before`, and reports in `c`.
pub open spec fn committed_layout(
    before: PersistentLiveLayout,
    after: PersistentLiveLayout,
    transaction: TransactionId,
    layers: Seq<LayerSnapshot>,
    focus: Option<SurfaceId>,
    update: WmTransactionUpdate,
    moved_surfaces: usize,
    configure_acks: nat,
    c: LiveLayoutCommit,
) -> bool {
    &&& after.wf()
    &&& after.layer_map() == layers_by_key(layer_views(layers))
    &&& after.surfaces().to_set() == layer_surfaces(layer_views(layers)).to_set()
    &&& after.focus() == match focus {
        Some(f) => Some((transaction, f)),
        None => before.focus(),
    }
    &&& after.sizes() == before.sizes()
    &&& after.unmanaged() == before.unmanaged()
    &&& after.staggers_new_surfaces() == before.staggers_new_surfaces()
    &&& c.update == update
    &&& c.surfaces == after.surfaces().len()
    &&& c.moved_surfaces == moved_surfaces
    &&& c.configure_acks == configure_acks
}

/// `after` is `before` with only the pending layout possibly changed.
pub open spec fn same_layers(before: PersistentLiveLayout, after: PersistentLiveLayout) -> bool {
    &&& after.wf()
    &&& after.layer_map() == before.layer_map()
    &&& after.surfaces() == before.surfaces()
    &&& after.sizes() == before.sizes()
    &&& after.unmanaged() == before.unmanaged()
    &&& after.focus() == before.focus()
    &&& after.staggers_new_surfaces() == before.staggers_new_surfaces()
}

/// `p` is `t` shown where the live layout places its surface: the target
/// geometry is the surface's layer geometry when it has a layer, and
/// everything else is `t`'s.
pub open spec fn projected_from(layers: Map<u64, LayerSnapshotView>, t: SurfaceTransaction, p: SurfaceTransaction) -> bool {
    let k = surface_key(t.surface);
    &&& p.transaction == t.transaction
    &&& p.surface == t.surface
    &&& p.previous_committed_generation == t.previous_committed_generation
    &&& p.target_geometry == if layers.contains_key(k) {
        layers[k].geometry
    } else {
        t.target_geometry
    }
    &&& p.target_buffer == t.target_buffer
    &&& p.damage.rects@ == t.damage.rects@
    &&& p.readiness == t.readiness
}

/// The transaction ids a live session hands the window manager: one after
/// another, and none once the next would not fit.
pub struct WmTransactionMinter {
    next: u64,
}

impl WmTransactionMinter {
    pub closed spec fn spec_next(self) -> u64 {
        self.next
    }

    /// Ids start at 1.
    pub fn new() -> (minter: WmTransactionMinter)
        ensures
            minter.spec_next() == 1,
    {
        WmTransactionMinter { next: 1 }
    }

    /// The next id; none (and nothing changes) when the id after it would
    /// not fit.
    pub fn mint(&mut self) -> (transaction: Option<TransactionId>)
        ensures
            if old(self).spec_next() < u64::MAX {
                &&& transaction == Some(TransactionId { raw: old(self).spec_next() })
                &&& final(self).spec_next() == old(self).spec_next() + 1
            } else {
                &&& transaction is None
                &&& final(self).spec_next() == old(self).spec_next()
            },
    {
        if self.next == u64::MAX {
            return None;
        }
        let transaction = TransactionId::from_raw(self.next);
        self.next = self.next + 1;
        Some(transaction)
    }
}

/// The workspace a live session lays out.
pub open spec fn live_workspace() -> WorkspaceId {
    WorkspaceId { raw: 1 }
}

/// The live layout of one session.
pub struct PersistentLiveLayout {
    layers: BTreeMap<u64, LayerSnapshot>,
    order: Vec<SurfaceId>,
    authority_sizes: BTreeMap<u64, Size>,
    unmanaged_surfaces: Vec<SurfaceId>,
    pending: Option<PendingLiveWmLayout>,
    focus_to_apply: Option<(TransactionId, SurfaceId)>,
    stage_new_surfaces_offset: bool,
}

impl PersistentLiveLayout {
    /// The layers as plain values, by surface key.
    pub closed spec fn layer_map(self) -> Map<u64, LayerSnapshotView> {
        self.layers@.map_values(|l: LayerSnapshot| l@)
    }

    /// The surfaces that have a layer, in increasing order.
    pub closed spec fn surfaces(self) -> Seq<SurfaceId> {
        self.order@
    }

    /// The last size the authority reported for each surface, by surface key.
    pub closed spec fn sizes(self) -> Map<u64, Size> {
        self.authority_sizes@
    }

    /// The surfaces the window manager has not been asked to place.
    pub closed spec fn unmanaged(self) -> Seq<SurfaceId> {
        self.unmanaged_surfaces@
    }

    pub closed spec fn pending(self) -> Option<PendingLiveWmLayout> {
        self.pending
    }

    pub closed spec fn focus(self) -> Option<(TransactionId, SurfaceId)> {
        self.focus_to_apply
    }

    pub closed spec fn staggers_new_surfaces(self) -> bool {
        self.stage_new_surfaces_offset
    }

    /// The layers in surface order.
    pub open spec fn ordered(self) -> Seq<LayerSnapshotView> {
        self.surfaces().map_values(|s: SurfaceId| self.layer_map()[surface_key(s)])
    }

    /// What observation has built, with no new surfaces yet.
    pub open spec fn observed(self) -> ObservedLayout {
        ObservedLayout {
            layers: self.layer_map(),
            sizes: self.sizes(),
            unmanaged: self.unmanaged().to_set(),
            new_surfaces: Seq::empty(),
        }
    }

    /// The surface order lists exactly the surfaces that have a layer, each
    /// layer sits under its own surface's key, and the unplaced surfaces
    /// are kept sorted.
    pub open spec fn wf(self) -> bool {
        &&& strictly_sorted(self.surfaces())
        &&& strictly_sorted(self.unmanaged())
        &&& forall|s: SurfaceId| #[trigger]
            self.surfaces().contains(s) <==> self.layer_map().contains_key(surface_key(s))
        &&& forall|k: u64| #[trigger]
            self.layer_map().contains_key(k) ==> surface_key(self.layer_map()[k].surface) == k
    }

    pub fn new(stage_new_surfaces_offset: bool) -> (layout: PersistentLiveLayout)
        ensures
            layout.wf(),
            layout.layer_map() == Map::<u64, LayerSnapshotView>::empty(),
            layout.surfaces() == Seq::<SurfaceId>::empty(),
            layout.sizes() == Map::<u64, Size>::empty(),
            layout.unmanaged() == Seq::<SurfaceId>::empty(),
            layout.pending() is None,
            layout.focus() is None,
            layout.staggers_new_surfaces() == stage_new_surfaces_offset,
    {
        let layout = PersistentLiveLayout {
            layers: BTreeMap::new(),
            order: Vec::new(),
            authority_sizes: BTreeMap::new(),
            unmanaged_surfaces: Vec::new(),
            pending: None,
            focus_to_apply: None,
            stage_new_surfaces_offset,
        };
        assert(layout.layer_map() =~= Map::<u64, LayerSnapshotView>::empty());
        layout
    }

    pub fn is_empty(&self) -> (empty: bool)
        ensures
            empty == (self.surfaces().len() == 0),
    {
        self.order.len() == 0
    }

    /// Whether `surface` has a layer.
    pub fn contains(&self, surface: SurfaceId) -> (found: bool)
        ensures
            found == self.layer_map().contains_key(surface_key(surface)),
    {
        self.layers.contains_key(&key_of(surface))
    }

    /// The surfaces that have a layer, in increasing order.
    pub fn known_surfaces(&self) -> (surfaces: Vec<SurfaceId>)
        ensures
            surfaces@ == self.surfaces(),
    {
        self.order.clone()
    }

    /// A copy of the layer of `surface`.
    pub fn layer(&self, surface: SurfaceId) -> (found: Option<LayerSnapshot>)
        ensures
            match found {
                Some(l) => self.layer_map().contains_key(surface_key(surface)) && l@ == self.layer_map()[surface_key(
                    surface,
                )],
                None => !self.layer_map().contains_key(surface_key(surface)),
            },
    {
        match self.layers.get(&key_of(surface)) {
            Some(l) => Some(l.copied()),
            None => None,
        }
    }

    /// Copies of the layers, in surface order.
    pub fn ordered_layers(&self) -> (layers: Vec<LayerSnapshot>)
        requires
            self.wf(),
        ensures
            layer_views(layers@) == self.ordered(),
    {
        let mut out: Vec<LayerSnapshot> = Vec::new();
        let mut i: usize = 0;
        while i < self.order.len()
            invariant
                self.wf(),
                i <= self.surfaces().len(),
                layer_views(out@) == self.ordered().subrange(0, i as int),
            decreases self.surfaces().len() - i,
        {
            let s = self.order[i];
            assert(self.surfaces()[i as int] == s);
            assert(self.surfaces().contains(s));
            let k = key_of(s);
            let l = match self.layers.get(&k) {
                Some(l) => l.copied(),
                None => {
                    assert(false);
                    return out;
                },
            };
            assert(l@ == self.layer_map()[surface_key(s)]);
            assert(self.ordered()[i as int] == l@);
            let ghost before = out@;
            let ghost lv = l@;
            out.push(l);
            assert(layer_views(out@) =~= layer_views(before).push(lv));
            assert(self.ordered().subrange(0, i + 1) =~= self.ordered().subrange(0, i as int).push(lv));
            i = i + 1;
        }
        assert(self.ordered().subrange(0, self.surfaces().len() as int) =~= self.ordered());
        out
    }

    /// The focus a committed layout asked for, handed out once.
    pub fn take_focus_to_apply(&mut self) -> (focus: Option<(TransactionId, SurfaceId)>)
        requires
            old(self).wf(),
        ensures
            final(self).wf(),
            focus == old(self).focus(),
            final(self).focus() is None,
            final(self).layer_map() == old(self).layer_map(),
            final(self).surfaces() == old(self).surfaces(),
            final(self).sizes() == old(self).sizes(),
            final(self).unmanaged() == old(self).unmanaged(),
            final(self).pending() == old(self).pending(),
            final(self).staggers_new_surfaces() == old(self).staggers_new_surfaces(),
    {
        let focus = self.focus_to_apply;
        self.focus_to_apply = None;
        focus
    }

    pub fn has_pending(&self) -> (pending: bool)
        ensures
            pending == self.pending() is Some,
    {
        self.pending.is_some()
    }

    /// The number of `proposed` layers that move a surface with a layer now.
    fn count_moved(&self, proposed: &Vec<LayerSnapshot>) -> (count: usize)
        ensures
            count == moved_count(self.layer_map(), layer_views(proposed@)),
    {
        let ghost all = layer_views(proposed@);
        let mut count: usize = 0;
        let mut i: usize = 0;
        while i < proposed.len()
            invariant
                i <= proposed@.len(),
                all == layer_views(proposed@),
                count <= i,
                count == moved_count(self.layer_map(), all.subrange(0, i as int)),
            decreases proposed@.len() - i,
        {
            let l = &proposed[i];
            assert(all.subrange(0, i + 1).drop_last() =~= all.subrange(0, i as int));
            assert(all.subrange(0, i + 1).last() == l@);
            let moved = match self.layers.get(&key_of(l.surface)) {
                Some(current) => current.geometry != l.geometry,
                None => false,
            };
            if moved {
                count = count + 1;
            }
            i = i + 1;
        }
        assert(all.subrange(0, all.len() as int) =~= all);
        count
    }

    /// Turns a window manager's layout into a proposal for the live
    /// layers: a response with too many commands is refused, then the
    /// layout is checked against the live surfaces and the output, then
    /// applied to a copy of the layers in surface order.
    pub fn propose(&self, transaction: &LayoutTransaction, command_count: usize, output: HeadlessOutput) -> (proposal:
        Result<LiveWmProposal, LiveWmProposalError>)
        requires
            self.wf(),
        ensures
            command_count > MAX_LIVE_WM_COMMANDS ==> proposal == Err::<LiveWmProposal, LiveWmProposalError>(
                LiveWmProposalError::TooManyCommands,
            ),
            command_count <= MAX_LIVE_WM_COMMANDS ==> match live_wm_transaction_error(
                *transaction,
                self.surfaces(),
                Rect { x: 0, y: 0, width: output.size.width, height: output.size.height },
            ) {
                Some(e) => proposal == Err::<LiveWmProposal, LiveWmProposalError>(LiveWmProposalError::Invalid(e)),
                None => if placements_valid(self.ordered(), transaction.render_positions@) {
                    proposal matches Ok(p) && is_live_proposal(self.ordered(), self.layer_map(), *transaction, p)
                } else {
                    proposal == Err::<LiveWmProposal, LiveWmProposalError>(
                        LiveWmProposalError::Rejected(TransactionOutcome::RejectedInvalidSurface),
                    )
                },
            },
    {
        if command_count > MAX_LIVE_WM_COMMANDS {
            return Err(LiveWmProposalError::TooManyCommands);
        }
        match validate_live_wm_transaction(transaction, self.order.as_slice(), output_bounds(output)) {
            Ok(()) => {},
            Err(e) => return Err(LiveWmProposalError::Invalid(e)),
        }
        let mut proposed = self.ordered_layers();
        let engine = HeadlessEngine::new(output);
        let commit = engine.commit_layout_transaction(transaction, &mut proposed);
        match commit.outcome {
            TransactionOutcome::Committed => {},
            outcome => return Err(LiveWmProposalError::Rejected(outcome)),
        }
        let requested_sizes = sorted_requests(&transaction.requested_sizes);
        let moved_surfaces = self.count_moved(&proposed);
        Ok(
            LiveWmProposal {
                transaction: transaction.transaction,
                layers: proposed,
                requested_sizes,
                focus: transaction.focus,
                timeout_msec: live_timeout(transaction.timeout_msec),
                update: WmTransactionUpdate { commit, ipc_error: None },
                moved_surfaces,
            },
        )
    }

    /// Records what an authority batch shows: each transaction's surface
    /// size, and its layer, refreshed when known or added (and left for
    /// the window manager to place) when new. Returns the new surfaces in
    /// the order they first appear.
    pub fn observe_authority_batch(&mut self, batch: &XAuthorityObservedTransactionBatch) -> (new_surfaces: Vec<
        SurfaceId,
    >)
        requires
            old(self).wf(),
        ensures
            final(self).wf(),
            ({
                let after = observe_all(old(self).observed(), batch.transactions@, old(self).staggers_new_surfaces());
                &&& final(self).layer_map() == after.layers
                &&& final(self).sizes() == after.sizes
                &&& final(self).unmanaged().to_set() == after.unmanaged
                &&& new_surfaces@ == after.new_surfaces
            }),
            final(self).pending() == old(self).pending(),
            final(self).focus() == old(self).focus(),
            final(self).staggers_new_surfaces() == old(self).staggers_new_surfaces(),
    {
        let ghost start = old(self).observed();
        let ghost offset = self.stage_new_surfaces_offset;
        let ts = &batch.transactions;
        let mut new_surfaces: Vec<SurfaceId> = Vec::new();
        let mut i: usize = 0;
        while i < ts.len()
            invariant
                self.wf(),
                i <= ts@.len(),
                offset == self.stage_new_surfaces_offset,
                ({
                    let st = observe_all(start, ts@.subrange(0, i as int), offset);
                    &&& self.layer_map() == st.layers
                    &&& self.sizes() == st.sizes
                    &&& self.unmanaged().to_set() == st.unmanaged
                    &&& new_surfaces@ == st.new_surfaces
                }),
                self.pending() == old(self).pending(),
                self.focus() == old(self).focus(),
            decreases ts@.len() - i,
        {
            let t = &ts[i];
            let ghost before = observe_all(start, ts@.subrange(0, i as int), offset);
            assert(ts@.subrange(0, i + 1).drop_last() =~= ts@.subrange(0, i as int));
            assert(ts@.subrange(0, i + 1).last() == ts@[i as int]);
            let k = key_of(t.surface);
            self.authority_sizes.insert(k, Size { width: t.target_geometry.width, height: t.target_geometry.height });
            match self.layer(t.surface) {
                Some(mut layer) => {
                    layer.source = t.target_buffer;
                    layer.damage = t.damage.copied();
                    layer.generation = t.previous_committed_generation.saturating_add(1);
                    self.put_layer(layer);
                    assert(self.unmanaged().to_set() == before.unmanaged);
                },
                None => {
                    new_surfaces.push(t.surface);
                    sorted_insert(&mut self.unmanaged_surfaces, t.surface);
                    let mut geometry = t.target_geometry;
                    if self.stage_new_surfaces_offset {
                        geometry.x = sat_add_i32(geometry.x, 80);
                        geometry.y = sat_add_i32(geometry.y, 60);
                    }
                    let layer = LayerSnapshot {
                        surface: t.surface,
                        window: None,
                        stack_rank: rank_for(i),
                        geometry,
                        source: t.target_buffer,
                        damage: t.damage.copied(),
                        crop: None,
                        opacity_bits: OPACITY_ONE_BITS,
                        generation: t.previous_committed_generation.saturating_add(1),
                        resize_sync: ResizeSyncCapability::ImplicitOnly,
                    };
                    assert(layer@ == new_live_layer(*t, i as int, offset));
                    self.put_layer(layer);
                },
            }
            i = i + 1;
        }
        assert(ts@.subrange(0, ts@.len() as int) =~= ts@);
        new_surfaces
    }

    /// Whether the authority has reported every size in `rs`.
    fn has_reached(&self, rs: &Vec<SurfaceSizeRequest>) -> (reached: bool)
        ensures
            reached == sizes_reached(self.sizes(), rs@),
    {
        let mut i: usize = 0;
        while i < rs.len()
            invariant
                i <= rs@.len(),
                forall|j: int| 0 <= j < i ==> size_confirmed(self.sizes(), #[trigger] rs@[j]),
            decreases rs@.len() - i,
        {
            let r = rs[i];
            match self.authority_sizes.get(&key_of(r.surface)) {
                Some(size) => {
                    if size.width != r.size.width || size.height != r.size.height {
                        assert(!size_confirmed(self.sizes(), rs@[i as int]));
                        return false;
                    }
                },
                None => {
                    assert(!size_confirmed(self.sizes(), rs@[i as int]));
                    return false;
                },
            }
            i = i + 1;
        }
        true
    }

    /// The proposal without the sizes the authority already reports, so
    /// that only the others are sent to clients.
    pub fn unconfirmed_sizes(&self, proposal: LiveWmProposal) -> (retained: LiveWmProposal)
        ensures
            retained.requested_sizes@ == unconfirmed_requests(self.sizes(), proposal.requested_sizes@),
            retained.transaction == proposal.transaction,
            retained.layers == proposal.layers,
            retained.focus == proposal.focus,
            retained.timeout_msec == proposal.timeout_msec,
            retained.update == proposal.update,
            retained.moved_surfaces == proposal.moved_surfaces,
    {
        let ghost sizes = self.sizes();
        let ghost keep = |r: SurfaceSizeRequest| !size_confirmed(sizes, r);
        let LiveWmProposal { transaction, layers, requested_sizes, focus, timeout_msec, update, moved_surfaces } =
            proposal;
        let mut kept: Vec<SurfaceSizeRequest> = Vec::new();
        let mut i: usize = 0;
        proof {
            reveal(Seq::filter);
            assert(requested_sizes@.subrange(0, 0).filter(keep) =~= Seq::<SurfaceSizeRequest>::empty());
        }
        while i < requested_sizes.len()
            invariant
                i <= requested_sizes@.len(),
                sizes == self.sizes(),
                keep == (|r: SurfaceSizeRequest| !size_confirmed(sizes, r)),
                kept@ == requested_sizes@.subrange(0, i as int).filter(keep),
            decreases requested_sizes@.len() - i,
        {
            let r = requested_sizes[i];
            proof {
                assert(requested_sizes@.subrange(0, i + 1) =~= requested_sizes@.subrange(0, i as int).push(r));
                requested_sizes@.subrange(0, i as int).lemma_filter_push(r, keep);
            }
            let confirmed = match self.authority_sizes.get(&key_of(r.surface)) {
                Some(size) => size.width == r.size.width && size.height == r.size.height,
                None => false,
            };
            assert(confirmed == size_confirmed(sizes, r));
            if !confirmed {
                kept.push(r);
            }
            i = i + 1;
        }
        assert(requested_sizes@.subrange(0, requested_sizes@.len() as int) =~= requested_sizes@);
        LiveWmProposal { transaction, layers, requested_sizes: kept, focus, timeout_msec, update, moved_surfaces }
    }

    /// Replaces the layers with `layers` (a later layer of a surface
    /// winning) and remembers the focus the layout asks for.
    fn commit_layers(
        &mut self,
        transaction: TransactionId,
        layers: Vec<LayerSnapshot>,
        focus: Option<SurfaceId>,
        update: WmTransactionUpdate,
        moved_surfaces: usize,
        configure_acks: usize,
    ) -> (c: LiveLayoutCommit)
        requires
            old(self).wf(),
        ensures
            committed_layout(
                *old(self),
                *final(self),
                transaction,
                layers@,
                focus,
                update,
                moved_surfaces,
                configure_acks as nat,
                c,
            ),
            final(self).pending() == old(self).pending(),
    {
        let ghost all = layer_views(layers@);
        self.layers = BTreeMap::new();
        self.order = Vec::new();
        assert(self.layer_map() =~= Map::<u64, LayerSnapshotView>::empty());
        assert(layer_surfaces(all.subrange(0, 0)).to_set() =~= Set::<SurfaceId>::empty());
        assert(self.surfaces().to_set() =~= Set::<SurfaceId>::empty());
        let mut i: usize = 0;
        while i < layers.len()
            invariant
                self.wf(),
                i <= layers@.len(),
                all == layer_views(layers@),
                self.layer_map() == layers_by_key(all.subrange(0, i as int)),
                self.surfaces().to_set() == layer_surfaces(all.subrange(0, i as int)).to_set(),
                self.sizes() == old(self).sizes(),
                self.unmanaged() == old(self).unmanaged(),
                self.pending() == old(self).pending(),
                self.focus() == old(self).focus(),
                self.staggers_new_surfaces() == old(self).staggers_new_surfaces(),
            decreases layers@.len() - i,
        {
            let l = layers[i].copied();
            let ghost prefix = all.subrange(0, i as int);
            assert(all.subrange(0, i + 1).drop_last() =~= prefix);
            assert(all.subrange(0, i + 1).last() == l@);
            assert(layer_surfaces(all.subrange(0, i + 1)) =~= layer_surfaces(prefix).push(l.surface));
            assert(layer_surfaces(prefix).push(l.surface).to_set() =~= layer_surfaces(prefix).to_set().insert(
                l.surface,
            ));
            self.put_layer(l);
            i = i + 1;
        }
        assert(all.subrange(0, all.len() as int) =~= all);
        match focus {
            Some(f) => {
                self.focus_to_apply = Some((transaction, f));
            },
            None => {},
        }
        LiveLayoutCommit { update, surfaces: self.order.len(), moved_surfaces, configure_acks }
    }

    /// Commits a proposal's layers at once.
    fn commit_proposal(&mut self, proposal: LiveWmProposal) -> (c: LiveLayoutCommit)
        requires
            old(self).wf(),
        ensures
            committed_layout(
                *old(self),
                *final(self),
                proposal.transaction,
                proposal.layers@,
                proposal.focus,
                proposal.update,
                proposal.moved_surfaces,
                proposal.requested_sizes@.len(),
                c,
            ),
            final(self).pending() == old(self).pending(),
    {
        let acks = proposal.requested_sizes.len();
        self.commit_layers(
            proposal.transaction,
            proposal.layers,
            proposal.focus,
            proposal.update,
            proposal.moved_surfaces,
            acks,
        )
    }

    /// Commits a layout that was waiting.
    fn commit_pending(&mut self, pending: PendingLiveWmLayout) -> (c: LiveLayoutCommit)
        requires
            old(self).wf(),
        ensures
            committed_layout(
                *old(self),
                *final(self),
                pending.transaction,
                pending.layers@,
                pending.focus,
                pending.update,
                pending.moved_surfaces,
                pending.requested_sizes@.len(),
                c,
            ),
            final(self).pending() == old(self).pending(),
    {
        let acks = pending.requested_sizes.len();
        self.commit_layers(
            pending.transaction,
            pending.layers,
            pending.focus,
            pending.update,
            pending.moved_surfaces,
            acks,
        )
    }

    /// Takes a proposal whose configure requests the clients acknowledged:
    /// it commits at once when every requested size is already reported,
    /// and otherwise waits, until `now_msec` plus its timeout, replacing
    /// any layout that was waiting.
    pub fn stage_acknowledged(&mut self, proposal: LiveWmProposal, now_msec: u64) -> (commit: Option<
        LiveLayoutCommit,
    >)
        requires
            old(self).wf(),
        ensures
            if sizes_reached(old(self).sizes(), proposal.requested_sizes@) {
                &&& commit matches Some(c) && committed_layout(
                    *old(self),
                    *final(self),
                    proposal.transaction,
                    proposal.layers@,
                    proposal.focus,
                    proposal.update,
                    proposal.moved_surfaces,
                    proposal.requested_sizes@.len(),
                    c,
                )
                &&& final(self).pending() == old(self).pending()
            } else {
                &&& commit is None
                &&& same_layers(*old(self), *final(self))
                &&& final(self).pending() == Some(
                    PendingLiveWmLayout {
                        transaction: proposal.transaction,
                        layers: proposal.layers,
                        requested_sizes: proposal.requested_sizes,
                        focus: proposal.focus,
                        deadline_msec: saturating_add_u64(now_msec, proposal.timeout_msec),
                        update: proposal.update,
                        moved_surfaces: proposal.moved_surfaces,
                    },
                )
            },
    {
        if self.has_reached(&proposal.requested_sizes) {
            return Some(self.commit_proposal(proposal));
        }
        let deadline_msec = now_msec.saturating_add(proposal.timeout_msec);
        self.pending = Some(
            PendingLiveWmLayout {
                transaction: proposal.transaction,
                layers: proposal.layers,
                requested_sizes: proposal.requested_sizes,
                focus: proposal.focus,
                deadline_msec,
                update: proposal.update,
                moved_surfaces: proposal.moved_surfaces,
            },
        );
        None
    }

    /// Commits the waiting layout once every size it asked for is reported.
    pub fn resolve_pending(&mut self) -> (commit: Option<LiveLayoutCommit>)
        requires
            old(self).wf(),
        ensures
            match old(self).pending() {
                Some(p) => if sizes_reached(old(self).sizes(), p.requested_sizes@) {
                    &&& commit matches Some(c) && committed_layout(
                        *old(self),
                        *final(self),
                        p.transaction,
                        p.layers@,
                        p.focus,
                        p.update,
                        p.moved_surfaces,
                        p.requested_sizes@.len(),
                        c,
                    )
                    &&& final(self).pending() is None
                } else {
                    &&& commit is None
                    &&& same_layers(*old(self), *final(self))
                    &&& final(self).pending() == old(self).pending()
                },
                None => {
                    &&& commit is None
                    &&& same_layers(*old(self), *final(self))
                    &&& final(self).pending() is None
                },
            },
    {
        let ready = match &self.pending {
            Some(p) => self.has_reached(&p.requested_sizes),
            None => false,
        };
        if !ready {
            return None;
        }
        let p = match self.pending.take() {
            Some(p) => p,
            None => return None,
        };
        Some(self.commit_pending(p))
    }

    /// Gives up on the waiting layout once `now_msec` reaches its deadline:
    /// the layers stay as they are and the transaction times out. Reports
    /// each requested size against the one last observed.
    pub fn expire_pending(&mut self, now_msec: u64) -> (timeout: Option<LiveLayoutTimeout>)
        requires
            old(self).wf(),
        ensures
            same_layers(*old(self), *final(self)),
            match old(self).pending() {
                Some(p) => if now_msec >= p.deadline_msec {
                    &&& final(self).pending() is None
                    &&& timeout matches Some(t) && {
                        &&& t.transaction == p.transaction
                        &&& t.update.commit.transaction == p.transaction
                        &&& t.update.commit.outcome == TransactionOutcome::TimedOut
                        &&& t.update.commit.applied_surfaces@.len() == 0
                        &&& t.update.ipc_error is None
                        &&& t.resize_state@ == p.requested_sizes@.map_values(
                            |r: SurfaceSizeRequest|
                                SizeProgress {
                                    surface: r.surface,
                                    expected: r.size,
                                    observed: observed_size(old(self).sizes(), r.surface),
                                },
                        )
                    }
                } else {
                    &&& timeout is None
                    &&& final(self).pending() == old(self).pending()
                },
                None => {
                    &&& timeout is None
                    &&& final(self).pending() is None
                },
            },
    {
        let expired = match &self.pending {
            Some(p) => now_msec >= p.deadline_msec,
            None => false,
        };
        if !expired {
            return None;
        }
        let p = match self.pending.take() {
            Some(p) => p,
            None => return None,
        };
        let ghost sizes = self.sizes();
        let ghost progress = |r: SurfaceSizeRequest|
            SizeProgress { surface: r.surface, expected: r.size, observed: observed_size(sizes, r.surface) };
        let mut resize_state: Vec<SizeProgress> = Vec::new();
        let mut i: usize = 0;
        while i < p.requested_sizes.len()
            invariant
                i <= p.requested_sizes@.len(),
                sizes == self.sizes(),
                progress == (|r: SurfaceSizeRequest|
                    SizeProgress { surface: r.surface, expected: r.size, observed: observed_size(sizes, r.surface) }),
                resize_state@ == p.requested_sizes@.subrange(0, i as int).map_values(progress),
            decreases p.requested_sizes@.len() - i,
        {
            let r = p.requested_sizes[i];
            let observed = match self.authority_sizes.get(&key_of(r.surface)) {
                Some(size) => *size,
                None => Size { width: 0, height: 0 },
            };
            resize_state.push(SizeProgress { surface: r.surface, expected: r.size, observed });
            assert(p.requested_sizes@.subrange(0, i + 1).map_values(progress) =~= p.requested_sizes@.subrange(
                0,
                i as int,
            ).map_values(progress).push(progress(r)));
            i = i + 1;
        }
        assert(p.requested_sizes@.subrange(0, p.requested_sizes@.len() as int) =~= p.requested_sizes@);
        Some(
            LiveLayoutTimeout {
                transaction: p.transaction,
                resize_state,
                update: WmTransactionUpdate {
                    commit: TransactionCommit {
                        transaction: p.transaction,
                        outcome: TransactionOutcome::TimedOut,
                        applied_surfaces: Vec::new(),
                    },
                    ipc_error: None,
                },
            },
        )
    }

    /// The surfaces not yet handed to the window manager, in increasing
    /// order; none are left afterwards.
    pub fn take_unmanaged_surfaces(&mut self) -> (surfaces: Vec<SurfaceId>)
        requires
            old(self).wf(),
        ensures
            final(self).wf(),
            surfaces@ == old(self).unmanaged(),
            strictly_sorted(surfaces@),
            final(self).unmanaged() == Seq::<SurfaceId>::empty(),
            final(self).layer_map() == old(self).layer_map(),
            final(self).surfaces() == old(self).surfaces(),
            final(self).sizes() == old(self).sizes(),
            final(self).pending() == old(self).pending(),
            final(self).focus() == old(self).focus(),
            final(self).staggers_new_surfaces() == old(self).staggers_new_surfaces(),
    {
        let mut surfaces: Vec<SurfaceId> = Vec::new();
        std::mem::swap(&mut surfaces, &mut self.unmanaged_surfaces);
        surfaces
    }

    /// The batch as the live layout shows it: each known surface at its
    /// layer's geometry.
    pub fn projected_batch(&self, batch: &XAuthorityObservedTransactionBatch) -> (projected:
        XAuthorityObservedTransactionBatch)
        ensures
            projected.transaction == batch.transaction,
            projected.transactions@.len() == batch.transactions@.len(),
            forall|i: int|
                0 <= i < batch.transactions@.len() ==> projected_from(
                    self.layer_map(),
                    batch.transactions@[i],
                    #[trigger] projected.transactions@[i],
                ),
    {
        let mut transactions: Vec<SurfaceTransaction> = Vec::new();
        let mut i: usize = 0;
        while i < batch.transactions.len()
            invariant
                i <= batch.transactions@.len(),
                transactions@.len() == i,
                forall|j: int|
                    0 <= j < i ==> projected_from(
                        self.layer_map(),
                        batch.transactions@[j],
                        #[trigger] transactions@[j],
                    ),
            decreases batch.transactions@.len() - i,
        {
            let t = &batch.transactions[i];
            let target_geometry = match self.layers.get(&key_of(t.surface)) {
                Some(layer) => layer.geometry,
                None => t.target_geometry,
            };
            transactions.push(
                SurfaceTransaction {
                    transaction: t.transaction,
                    surface: t.surface,
                    previous_committed_generation: t.previous_committed_generation,
                    target_geometry,
                    target_buffer: t.target_buffer,
                    damage: t.damage.copied(),
                    readiness: t.readiness,
                },
            );
            i = i + 1;
        }
        XAuthorityObservedTransactionBatch { transaction: batch.transaction, transactions }
    }

    /// Asks the window manager to place `surface`, which must have a layer.
    pub fn manage_request(&self, surface: SurfaceId, output: HeadlessOutput, transaction: TransactionId) -> (request:
        Option<WmRequestPacket>)
        ensures
            match request {
                Some(r) => {
                    &&& self.layer_map().contains_key(surface_key(surface))
                    &&& r.transaction == transaction
                    &&& r.kind == WmRequestKind::ManageSurface(
                        WmManageSurface {
                            node: node_of_layer(self.layer_map()[surface_key(surface)], live_workspace()),
                            output: output.id,
                            workspace: live_workspace(),
                            bounds: Rect { x: 0, y: 0, width: output.size.width, height: output.size.height },
                        },
                    )
                },
                None => !self.layer_map().contains_key(surface_key(surface)),
            },
    {
        let layer = match self.layer(surface) {
            Some(l) => l,
            None => return None,
        };
        let workspace = WorkspaceId::from_raw(1);
        let node = live_layout_node(&layer, workspace);
        Some(
            WmRequestPacket {
                transaction,
                kind: WmRequestKind::ManageSurface(
                    WmManageSurface { node, output: output.id, workspace, bounds: output_bounds(output) },
                ),
            },
        )
    }

    /// Asks the window manager to lay out every live layer again.
    pub fn relayout_request(&self, output: HeadlessOutput, transaction: TransactionId) -> (request: WmRequestPacket)
        requires
            self.wf(),
        ensures
            request.transaction == transaction,
            request.kind matches WmRequestKind::RelayoutWorkspace(r) && {
                &&& r.output == output.id
                &&& r.workspace == live_workspace()
                &&& r.bounds == (Rect { x: 0, y: 0, width: output.size.width, height: output.size.height })
                &&& r.nodes@ == self.ordered().map_values(
                    |l: LayerSnapshotView| node_of_layer(l, live_workspace()),
                )
            },
    {
        let workspace = WorkspaceId::from_raw(1);
        let layers = self.ordered_layers();
        let nodes = crate::scene::layout_nodes_from_layers(layers.as_slice(), workspace);
        WmRequestPacket {
            transaction,
            kind: WmRequestKind::RelayoutWorkspace(
                WmRelayoutWorkspace { output: output.id, workspace, bounds: output_bounds(output), nodes },
            ),
        }
    }

    /// Stores `layer` under its surface, adding the surface to the order
    /// when it is new.
    fn put_layer(&mut self, layer: LayerSnapshot)
        requires
            old(self).wf(),
        ensures
            final(self).wf(),
            final(self).layer_map() == old(self).layer_map().insert(surface_key(layer.surface), layer@),
            final(self).surfaces().to_set() == old(self).surfaces().to_set().insert(layer.surface),
            final(self).sizes() == old(self).sizes(),
            final(self).unmanaged() == old(self).unmanaged(),
            final(self).pending() == old(self).pending(),
            final(self).focus() == old(self).focus(),
            final(self).staggers_new_surfaces() == old(self).staggers_new_surfaces(),
    {
        let s = layer.surface;
        let k = key_of(s);
        let ghost v = layer@;
        self.layers.insert(k, layer);
        sorted_insert(&mut self.order, s);
        assert(self.layer_map() =~= old(self).layer_map().insert(k, v));
        assert forall|x: SurfaceId| #[trigger]
            self.surfaces().contains(x) <==> self.layer_map().contains_key(surface_key(x)) by {
            assert(self.surfaces().to_set().contains(x) == self.surfaces().contains(x));
            assert(old(self).surfaces().to_set().contains(x) == old(self).surfaces().contains(x));
            lemma_surface_key_injective(x, s);
        }
    }
}

} // verus!
