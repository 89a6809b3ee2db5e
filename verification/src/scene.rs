//! The scenes the live session builds from authority transactions: seeded
//! committed states, layer templates and input layers, and the checks a
//! window-manager layout must pass before the live session commits it.

use vstd::prelude::*;

use crate::chrome::{LayoutNodeCapabilities, LayoutNodeKind, LayoutNodeSnapshot};
use crate::engine::LayoutTransaction;
use crate::output::HeadlessOutput;
use crate::protocol::{
    BufferSource, CommittedSurfaceState, CommittedSurfaceStateView, LayerSnapshot, LayerSnapshotView, Rect, Region,
    ResizeSyncCapability, SurfaceId, SurfaceTransaction, TransactionId, WorkspaceId, committed_views, layer_views,
};
use crate::runtime::AuthorityTransactionIntake;

verus! {

broadcast use vstd::seq_lib::group_seq_properties;

/// The bit pattern of the `f32` 1.0: a fully opaque layer.
pub const OPACITY_ONE_BITS: u32 = 0x3f80_0000;

/// A rank for the `index`-th layer: the index, or `u32::MAX` beyond it.
pub open spec fn rank_of_index(index: int) -> u32 {
    if index <= u32::MAX as int {
        index as u32
    } else {
        u32::MAX
    }
}

pub(crate) fn rank_for(index: usize) -> (rank: u32)
    ensures
        rank == rank_of_index(index as int),
{
    if index <= u32::MAX as usize {
        index as u32
    } else {
        u32::MAX
    }
}

/// The opaque, untransformed layer of a committed state at `index`.
pub open spec fn input_layer_of(state: CommittedSurfaceStateView, index: int) -> LayerSnapshotView {
    LayerSnapshotView {
        surface: state.surface,
        window: None,
        stack_rank: rank_of_index(index),
        geometry: state.geometry,
        source: state.buffer,
        damage: state.damage,
        crop: None,
        opacity_bits: OPACITY_ONE_BITS,
        generation: state.committed_generation,
        resize_sync: ResizeSyncCapability::ImplicitOnly,
    }
}

/// One opaque layer per committed state, stacked in their order.
pub fn input_layers(committed: &[CommittedSurfaceState]) -> (layers: Vec<LayerSnapshot>)
    ensures
        layers@.len() == committed@.len(),
        forall|i: int| 0 <= i < committed@.len() ==> (#[trigger] layers@[i])@ == input_layer_of(committed@[i]@, i),
{
    let mut layers: Vec<LayerSnapshot> = Vec::new();
    let mut i: usize = 0;
    while i < committed.len()
        invariant
            i <= committed@.len(),
            layers@.len() == i,
            forall|k: int| 0 <= k < i ==> (#[trigger] layers@[k])@ == input_layer_of(committed@[k]@, k),
        decreases committed@.len() - i,
    {
        let state = &committed[i];
        layers.push(
            LayerSnapshot {
                surface: state.surface,
                window: None,
                stack_rank: rank_for(i),
                geometry: state.geometry,
                source: state.buffer,
                damage: state.damage.copied(),
                crop: None,
                opacity_bits: OPACITY_ONE_BITS,
                generation: state.committed_generation,
                resize_sync: ResizeSyncCapability::ImplicitOnly,
            },
        );
        i = i + 1;
    }
    layers
}

/// The template layer of the `index`-th transaction: its target geometry
/// and damage, no buffer yet, at its previous generation.
pub open spec fn template_of(t: SurfaceTransaction, index: int) -> LayerSnapshotView {
    LayerSnapshotView {
        surface: t.surface,
        window: None,
        stack_rank: rank_of_index(index),
        geometry: t.target_geometry,
        source: BufferSource::Absent,
        damage: t.damage.rects@,
        crop: None,
        opacity_bits: OPACITY_ONE_BITS,
        generation: t.previous_committed_generation,
        resize_sync: ResizeSyncCapability::ImplicitOnly,
    }
}

/// One template layer per transaction, stacked in their order.
pub fn layer_templates_from_surface_transactions(transactions: &[SurfaceTransaction]) -> (layers: Vec<
    LayerSnapshot,
>)
    ensures
        layers@.len() == transactions@.len(),
        forall|i: int| 0 <= i < transactions@.len() ==> (#[trigger] layers@[i])@ == template_of(transactions@[i], i),
{
    let mut layers: Vec<LayerSnapshot> = Vec::new();
    let mut i: usize = 0;
    while i < transactions.len()
        invariant
            i <= transactions@.len(),
            layers@.len() == i,
            forall|k: int| 0 <= k < i ==> (#[trigger] layers@[k])@ == template_of(transactions@[k], k),
        decreases transactions@.len() - i,
    {
        let t = &transactions[i];
        layers.push(
            LayerSnapshot {
                surface: t.surface,
                window: None,
                stack_rank: rank_for(i),
                geometry: t.target_geometry,
                source: BufferSource::Absent,
                damage: t.damage.copied(),
                crop: None,
                opacity_bits: OPACITY_ONE_BITS,
                generation: t.previous_committed_generation,
                resize_sync: ResizeSyncCapability::ImplicitOnly,
            },
        );
        i = i + 1;
    }
    layers
}

/// The committed state a transaction builds on: its target geometry and
/// buffer at its previous generation, without damage.
pub open spec fn seed_of(t: SurfaceTransaction) -> CommittedSurfaceStateView {
    CommittedSurfaceStateView {
        surface: t.surface,
        committed_generation: t.previous_committed_generation,
        geometry: t.target_geometry,
        buffer: t.target_buffer,
        damage: Seq::empty(),
    }
}

fn seed_state(t: &SurfaceTransaction) -> (state: CommittedSurfaceState)
    ensures
        state@ == seed_of(*t),
{
    CommittedSurfaceState {
        surface: t.surface,
        committed_generation: t.previous_committed_generation,
        geometry: t.target_geometry,
        buffer: t.target_buffer,
        damage: Region::empty(),
    }
}

/// The seed state of every transaction, in order.
pub fn seed_committed_states_for_transactions(transactions: &[SurfaceTransaction]) -> (states: Vec<
    CommittedSurfaceState,
>)
    ensures
        committed_views(states@) == transactions@.map_values(|t: SurfaceTransaction| seed_of(t)),
{
    let mut states: Vec<CommittedSurfaceState> = Vec::new();
    let mut i: usize = 0;
    while i < transactions.len()
        invariant
            i <= transactions@.len(),
            states@.len() == i,
            forall|k: int| 0 <= k < i ==> (#[trigger] states@[k])@ == seed_of(transactions@[k]),
        decreases transactions@.len() - i,
    {
        states.push(seed_state(&transactions[i]));
        i = i + 1;
    }
    assert(committed_views(states@) =~= transactions@.map_values(|t: SurfaceTransaction| seed_of(t)));
    states
}

/// `k` is the first transaction of its surface.
pub open spec fn first_of_surface(ts: Seq<SurfaceTransaction>, k: int) -> bool {
    0 <= k < ts.len() && forall|j: int| 0 <= j < k ==> (#[trigger] ts[j]).surface != ts[k].surface
}

/// States ordered by surface, each surface once.
pub open spec fn states_by_surface(states: Seq<CommittedSurfaceStateView>) -> bool {
    forall|i: int, j: int| 0 <= i < j < states.len() ==> (#[trigger] states[i]).surface.spec_lt(#[trigger] states[j].surface)
}

/// One seed state per surface of the transactions, from its first
/// transaction, ordered by surface.
pub open spec fn seeded_once_per_surface(states: Seq<CommittedSurfaceStateView>, ts: Seq<SurfaceTransaction>) -> bool {
    &&& states_by_surface(states)
    &&& forall|i: int|
        #![trigger states[i]]
        0 <= i < states.len() ==> exists|k: int| #![trigger ts[k]] first_of_surface(ts, k) && states[i] == seed_of(ts[k])
    &&& forall|k: int|
        0 <= k < ts.len() ==> exists|i: int| 0 <= i < states.len() && (#[trigger] states[i]).surface == (
        #[trigger] ts[k]).surface
}

/// Adds the seed of `t` at its place by surface, unless its surface is
/// already there; returns the place and whether it was added.
fn insert_seed(states: &mut Vec<CommittedSurfaceState>, t: &SurfaceTransaction) -> (placed: (usize, bool))
    requires
        states_by_surface(committed_views(old(states)@)),
    ensures
        states_by_surface(committed_views(final(states)@)),
        placed.0 < final(states)@.len(),
        committed_views(final(states)@)[placed.0 as int].surface == t.surface,
        placed.1 ==> committed_views(final(states)@) == committed_views(old(states)@).insert(
            placed.0 as int,
            seed_of(*t),
        ),
        placed.1 ==> placed.0 <= old(states)@.len() && final(states)@.len() == old(states)@.len() + 1,
        placed.1 ==> forall|b: int|
            0 <= b < old(states)@.len() ==> (#[trigger] committed_views(old(states)@)[b]).surface != t.surface,
        !placed.1 ==> committed_views(final(states)@) == committed_views(old(states)@),
{
    let ghost views = committed_views(states@);
    let mut p: usize = 0;
    while p < states.len() && states[p].surface.precedes(&t.surface)
        invariant
            p <= states@.len(),
            views == committed_views(states@),
            forall|a: int| 0 <= a < p ==> (#[trigger] views[a]).surface.spec_lt(t.surface),
        decreases states@.len() - p,
    {
        p = p + 1;
    }
    if p < states.len() && states[p].surface.same(&t.surface) {
        assert(views[p as int].surface == t.surface);
        return (p, false);
    }
    proof {
        if p < views.len() {
            assert(!views[p as int].surface.spec_lt(t.surface));
            assert(views[p as int].surface != t.surface);
        }
        assert forall|b: int| 0 <= b < views.len() implies (#[trigger] views[b]).surface != t.surface by {
            if b < p {
                assert(views[b].surface.spec_lt(t.surface));
            } else if b > p {
                assert(views[p as int].surface.spec_lt(views[b].surface));
            }
        }
    }
    let state = seed_state(t);
    states.insert(p, state);
    let ghost nv = committed_views(states@);
    assert(nv =~= views.insert(p as int, seed_of(*t)));
    assert forall|a: int, b: int| 0 <= a < b < nv.len() implies (#[trigger] nv[a]).surface.spec_lt(
        #[trigger] nv[b].surface,
    ) by {
        if b < p {
        } else if b == p {
        } else if a < p {
            assert(views[a].surface.spec_lt(t.surface));
            if b - 1 > p {
                assert(views[p as int].surface.spec_lt(views[b - 1].surface));
            }
        } else if a == p {
            if b - 1 > p {
                assert(views[p as int].surface.spec_lt(views[b - 1].surface));
            }
        } else {
        }
    }
    (p, true)
}

/// One committed state per surface, seeded from its first transaction and
/// ordered by surface.
pub fn seed_committed_surfaces(transactions: &[SurfaceTransaction]) -> (states: Vec<CommittedSurfaceState>)
    ensures
        seeded_once_per_surface(committed_views(states@), transactions@),
{
    let ghost ts = transactions@;
    let mut states: Vec<CommittedSurfaceState> = Vec::new();
    let ghost mut origin: Seq<int> = Seq::empty();
    let ghost mut slot: Seq<int> = Seq::empty();
    let mut i: usize = 0;
    while i < transactions.len()
        invariant
            i <= ts.len(),
            ts == transactions@,
            states_by_surface(committed_views(states@)),
            origin.len() == states@.len(),
            forall|a: int|
                0 <= a < states@.len() ==> 0 <= #[trigger] origin[a] < i && first_of_surface(ts, origin[a])
                    && committed_views(states@)[a] == seed_of(ts[origin[a]]),
            slot.len() == i,
            forall|k: int|
                0 <= k < i ==> 0 <= #[trigger] slot[k] < states@.len() && committed_views(states@)[slot[k]].surface
                    == ts[k].surface,
        decreases ts.len() - i,
    {
        let ghost views = committed_views(states@);
        let (p, added) = insert_seed(&mut states, &transactions[i]);
        proof {
            let nv = committed_views(states@);
            if added {
                assert(nv.len() == views.len() + 1);
                assert forall|j: int| 0 <= j < i implies (#[trigger] ts[j]).surface != ts[i as int].surface by {
                    assert(views[slot[j]].surface == ts[j].surface);
                }
                let new_origin = origin.insert(p as int, i as int);
                let new_slot = Seq::new(
                    (i + 1) as nat,
                    |k: int|
                        if k == i {
                            p as int
                        } else if slot[k] < p {
                            slot[k]
                        } else {
                            slot[k] + 1
                        },
                );
                assert forall|a: int| 0 <= a < nv.len() implies 0 <= #[trigger] new_origin[a] < i + 1 && first_of_surface(
                    ts,
                    new_origin[a],
                ) && nv[a] == seed_of(ts[new_origin[a]]) by {
                    if a < p {
                        assert(new_origin[a] == origin[a]);
                    } else if a > p {
                        assert(new_origin[a] == origin[a - 1]);
                    }
                }
                assert forall|k: int| 0 <= k < i + 1 implies 0 <= #[trigger] new_slot[k] < nv.len()
                    && nv[new_slot[k]].surface == ts[k].surface by {
                    if k < i {
                        if slot[k] < p {
                        } else {
                            assert(nv[slot[k] + 1] == views[slot[k]]);
                        }
                    }
                }
                origin = new_origin;
                slot = new_slot;
            } else {
                slot = slot.push(p as int);
            }
        }
        i = i + 1;
    }
    proof {
        let v = committed_views(states@);
        assert forall|a: int| #![trigger v[a]] 0 <= a < v.len() implies exists|k: int| #![trigger ts[k]] first_of_surface(ts, k) && v[a]
            == seed_of(ts[k]) by {
            let k = origin[a];
            assert(first_of_surface(ts, k) && v[a] == seed_of(ts[k]));
        }
        assert forall|k: int| 0 <= k < ts.len() implies exists|a: int| 0 <= a < v.len() && (#[trigger] v[a]).surface
            == (#[trigger] ts[k]).surface by {
            assert(v[slot[k]].surface == ts[k].surface);
        }
    }
    states
}

/// An authority batch as the X authority reported it.
#[derive(Clone, Debug, PartialEq, Eq)]
pub struct XAuthorityObservedTransactionBatch {
    pub transaction: TransactionId,
    pub transactions: Vec<SurfaceTransaction>,
}

/// One intake per observed batch, in order.
pub fn authority_intakes_from_observed_batches(batches: Vec<XAuthorityObservedTransactionBatch>) -> (intakes: Vec<
    AuthorityTransactionIntake,
>)
    ensures
        intakes@.len() == batches@.len(),
        forall|i: int|
            0 <= i < batches@.len() ==> (#[trigger] intakes@[i]).transaction == batches@[i].transaction
                && intakes@[i].transactions == batches@[i].transactions,
{
    let mut intakes: Vec<AuthorityTransactionIntake> = Vec::new();
    let mut rest = batches;
    let ghost all = rest@;
    let n = rest.len();
    assert(all.len() == n);
    let mut i: usize = 0;
    while rest.len() > 0
        invariant
            i + rest@.len() == all.len(),
            all.len() <= usize::MAX,
            all.len() == batches@.len(),
            rest@ == all.subrange(i as int, all.len() as int),
            intakes@.len() == i,
            forall|k: int|
                0 <= k < i ==> (#[trigger] intakes@[k]).transaction == all[k].transaction
                    && intakes@[k].transactions == all[k].transactions,
        decreases rest@.len(),
    {
        let batch = rest.remove(0);
        assert(batch == all[i as int]);
        intakes.push(AuthorityTransactionIntake::new(batch.transaction, batch.transactions));
        i = i + 1;
    }
    intakes
}

/// The whole output, from the origin.
pub fn output_bounds(output: HeadlessOutput) -> (bounds: Rect)
    ensures
        bounds == (Rect { x: 0, y: 0, width: output.size.width, height: output.size.height }),
{
    Rect { x: 0, y: 0, width: output.size.width, height: output.size.height }
}

/// The WM's view of a live layer: a standard toplevel of `workspace`.
pub fn live_layout_node(layer: &LayerSnapshot, workspace: WorkspaceId) -> (node: LayoutNodeSnapshot)
    ensures
        node.surface == layer.surface,
        node.workspace == workspace,
        node.kind == LayoutNodeKind::Toplevel,
        node.capabilities.closable && node.capabilities.resizable && node.capabilities.movable,
        node.geometry == layer.geometry,
        node.generation == layer.generation,
{
    LayoutNodeSnapshot {
        surface: layer.surface,
        workspace,
        kind: LayoutNodeKind::Toplevel,
        capabilities: LayoutNodeCapabilities::standard_toplevel(),
        geometry: layer.geometry,
        generation: layer.generation,
    }
}

/// The standard toplevel node of a layer, in `workspace`.
pub open spec fn node_of_layer(layer: LayerSnapshotView, workspace: WorkspaceId) -> LayoutNodeSnapshot {
    LayoutNodeSnapshot {
        surface: layer.surface,
        workspace,
        kind: LayoutNodeKind::Toplevel,
        capabilities: LayoutNodeCapabilities { closable: true, resizable: true, movable: true },
        geometry: layer.geometry,
        generation: layer.generation,
    }
}

/// The WM's view of each layer, in order.
pub fn layout_nodes_from_layers(layers: &[LayerSnapshot], workspace: WorkspaceId) -> (nodes: Vec<LayoutNodeSnapshot>)
    ensures
        nodes@ == layer_views(layers@).map_values(|l: LayerSnapshotView| node_of_layer(l, workspace)),
{
    let ghost target = layer_views(layers@).map_values(|l: LayerSnapshotView| node_of_layer(l, workspace));
    let mut nodes: Vec<LayoutNodeSnapshot> = Vec::new();
    let mut i: usize = 0;
    while i < layers.len()
        invariant
            i <= layers@.len(),
            target == layer_views(layers@).map_values(|l: LayerSnapshotView| node_of_layer(l, workspace)),
            nodes@ == target.subrange(0, i as int),
        decreases layers@.len() - i,
    {
        let node = live_layout_node(&layers[i], workspace);
        assert(node == node_of_layer(layers@[i as int]@, workspace));
        nodes.push(node);
        assert(nodes@ =~= target.subrange(0, i + 1));
        i = i + 1;
    }
    assert(target.subrange(0, layers@.len() as int) =~= target);
    nodes
}

/// `geometry` lies inside `bounds`, and neither edge overflows an `i32`.
pub open spec fn spec_rect_is_within(bounds: Rect, geometry: Rect) -> bool {
    &&& bounds.x + bounds.width <= i32::MAX
    &&& bounds.y + bounds.height <= i32::MAX
    &&& i32::MIN <= bounds.x + bounds.width
    &&& i32::MIN <= bounds.y + bounds.height
    &&& geometry.x + geometry.width <= i32::MAX
    &&& geometry.y + geometry.height <= i32::MAX
    &&& i32::MIN <= geometry.x + geometry.width
    &&& i32::MIN <= geometry.y + geometry.height
    &&& geometry.x >= bounds.x
    &&& geometry.y >= bounds.y
    &&& geometry.x + geometry.width <= bounds.x + bounds.width
    &&& geometry.y + geometry.height <= bounds.y + bounds.height
}

pub fn rect_is_within(bounds: Rect, geometry: Rect) -> (within: bool)
    ensures
        within == spec_rect_is_within(bounds, geometry),
{
    let bounds_right = match bounds.x.checked_add(bounds.width) {
        Some(v) => v,
        None => return false,
    };
    let bounds_bottom = match bounds.y.checked_add(bounds.height) {
        Some(v) => v,
        None => return false,
    };
    let right = match geometry.x.checked_add(geometry.width) {
        Some(v) => v,
        None => return false,
    };
    let bottom = match geometry.y.checked_add(geometry.height) {
        Some(v) => v,
        None => return false,
    };
    geometry.x >= bounds.x && geometry.y >= bounds.y && right <= bounds_right && bottom <= bounds_bottom
}

/// Why the live session refused a WM layout.
#[derive(Clone, Copy, Debug, PartialEq, Eq, Structural)]
pub enum LiveWmTransactionError {
    /// A placement of an unknown surface, an empty one, or one outside the output.
    InvalidPlacement,
    /// A size request for an unknown surface, or not in 1..=65535 on each axis.
    InvalidSizeRequest,
    /// Focus on an unknown surface.
    UnknownFocus,
}

/// The first thing wrong with a WM layout, given the live surfaces and
/// the output bounds: placements first, then size requests, then focus.
pub open spec fn live_wm_transaction_error(
    t: LayoutTransaction,
    known: Seq<SurfaceId>,
    bounds: Rect,
) -> Option<LiveWmTransactionError> {
    if exists|i: int|
        0 <= i < t.render_positions@.len() && {
            let p = #[trigger] t.render_positions@[i];
            !known.contains(p.surface) || p.geometry.spec_empty() || !spec_rect_is_within(bounds, p.geometry)
        } {
        Some(LiveWmTransactionError::InvalidPlacement)
    } else if exists|i: int|
        0 <= i < t.requested_sizes@.len() && {
            let r = #[trigger] t.requested_sizes@[i];
            !known.contains(r.surface) || r.size.width <= 0 || r.size.height <= 0 || r.size.width > 65535
                || r.size.height > 65535
        } {
        Some(LiveWmTransactionError::InvalidSizeRequest)
    } else if t.focus matches Some(f) && !known.contains(f) {
        Some(LiveWmTransactionError::UnknownFocus)
    } else {
        None
    }
}

fn contains_surface(known: &[SurfaceId], surface: SurfaceId) -> (found: bool)
    ensures
        found == known@.contains(surface),
{
    let mut i: usize = 0;
    while i < known.len()
        invariant
            i <= known@.len(),
            forall|j: int| 0 <= j < i ==> known@[j] != surface,
        decreases known@.len() - i,
    {
        if known[i].same(&surface) {
            assert(known@[i as int] == surface);
            return true;
        }
        i = i + 1;
    }
    false
}

/// Checks a WM layout before the live session commits it.
pub fn validate_live_wm_transaction(transaction: &LayoutTransaction, known: &[SurfaceId], bounds: Rect) -> (checked:
    Result<(), LiveWmTransactionError>)
    ensures
        match checked {
            Ok(()) => live_wm_transaction_error(*transaction, known@, bounds) is None,
            Err(e) => live_wm_transaction_error(*transaction, known@, bounds) == Some(e),
        },
{
    let mut i: usize = 0;
    while i < transaction.render_positions.len()
        invariant
            i <= transaction.render_positions@.len(),
            forall|j: int|
                0 <= j < i ==> {
                    let p = #[trigger] transaction.render_positions@[j];
                    known@.contains(p.surface) && !p.geometry.spec_empty() && spec_rect_is_within(bounds, p.geometry)
                },
        decreases transaction.render_positions@.len() - i,
    {
        let p = transaction.render_positions[i];
        if !contains_surface(known, p.surface) || p.geometry.is_empty() || !rect_is_within(bounds, p.geometry) {
            assert(transaction.render_positions@[i as int] == p);
            return Err(LiveWmTransactionError::InvalidPlacement);
        }
        i = i + 1;
    }
    let mut j: usize = 0;
    while j < transaction.requested_sizes.len()
        invariant
            i == transaction.render_positions@.len(),
            forall|k: int|
                0 <= k < i ==> {
                    let p = #[trigger] transaction.render_positions@[k];
                    known@.contains(p.surface) && !p.geometry.spec_empty() && spec_rect_is_within(bounds, p.geometry)
                },
            j <= transaction.requested_sizes@.len(),
            forall|k: int|
                0 <= k < j ==> {
                    let r = #[trigger] transaction.requested_sizes@[k];
                    known@.contains(r.surface) && !(r.size.width <= 0 || r.size.height <= 0 || r.size.width > 65535
                        || r.size.height > 65535)
                },
        decreases transaction.requested_sizes@.len() - j,
    {
        let r = transaction.requested_sizes[j];
        if !contains_surface(known, r.surface) || r.size.width <= 0 || r.size.height <= 0 || r.size.width > 65535
            || r.size.height > 65535 {
            assert(transaction.requested_sizes@[j as int] == r);
            return Err(LiveWmTransactionError::InvalidSizeRequest);
        }
        j = j + 1;
    }
    match transaction.focus {
        Some(f) => {
            if !contains_surface(known, f) {
                return Err(LiveWmTransactionError::UnknownFocus);
            }
        },
        None => {},
    }
    Ok(())
}

} // verus!
