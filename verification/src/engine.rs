//! The engine's atomic commits: authority surface transactions are
//! committed all together or not at all, and window-manager layout
//! transactions move and restack layers all together or not at all.

use vstd::prelude::*;

use crate::num::saturating_add_u64;
use crate::output::HeadlessOutput;
use crate::protocol::{
    BufferSource, CommittedSurfaceState, CommittedSurfaceStateView, LayerSnapshot, LayerSnapshotView,
    Rect, Region, Size, SurfaceId, SurfaceTransaction, SurfaceTransactionReadiness, TransactionCommit,
    TransactionId, TransactionOutcome, committed_views, layer_views,
};
use crate::wm::{WmIpcError, WmTransactionUpdate};

verus! {

broadcast use vstd::seq_lib::group_seq_properties;

/// Why the engine refused a request.
#[derive(Clone, Debug, PartialEq, Eq)]
pub enum EngineError {
    InvalidOutput,
    InvalidSurface,
    InvalidFrame,
    WmIpc(WmIpcError),
}

/// The broad class of a failure, as the session reports it.
#[derive(Clone, Copy, Debug, PartialEq, Eq, Structural)]
pub enum SophiaErrorKind {
    InvalidOutput,
    InvalidSurface,
    InvalidFrame,
    ExternalProcess,
}

impl EngineError {
    /// A window-manager failure is an external process's; the others are
    /// the engine's own.
    pub fn kind(&self) -> (kind: SophiaErrorKind)
        ensures
            kind == match *self {
                EngineError::InvalidOutput => SophiaErrorKind::InvalidOutput,
                EngineError::InvalidSurface => SophiaErrorKind::InvalidSurface,
                EngineError::InvalidFrame => SophiaErrorKind::InvalidFrame,
                EngineError::WmIpc(_) => SophiaErrorKind::ExternalProcess,
            },
    {
        match self {
            EngineError::InvalidOutput => SophiaErrorKind::InvalidOutput,
            EngineError::InvalidSurface => SophiaErrorKind::InvalidSurface,
            EngineError::InvalidFrame => SophiaErrorKind::InvalidFrame,
            EngineError::WmIpc(_) => SophiaErrorKind::ExternalProcess,
        }
    }
}

/// Whether one surface transaction may be committed now.
#[derive(Clone, Copy, Debug, PartialEq, Eq, Structural)]
pub enum SurfaceTransactionCommitReadiness {
    Ready,
    NotReady(SurfaceTransactionReadiness),
    InvalidSurface,
    EmptyGeometry,
    MissingBuffer,
    StaleGeneration { current: u64, expected: u64 },
}

/// The index of the first committed state of `surface`, if any.
pub open spec fn first_state_index(states: Seq<CommittedSurfaceStateView>, surface: SurfaceId) -> Option<int> {
    if exists|i: int| 0 <= i < states.len() && (#[trigger] states[i]).surface == surface {
        Some(
            choose|i: int|
                0 <= i < states.len() && (#[trigger] states[i]).surface == surface && forall|j: int|
                    0 <= j < i ==> (#[trigger] states[j]).surface != surface,
        )
    } else {
        None
    }
}

/// The committed generation of `surface`; zero for a surface never committed.
pub open spec fn current_generation(states: Seq<CommittedSurfaceStateView>, surface: SurfaceId) -> u64 {
    match first_state_index(states, surface) {
        Some(i) => states[i].committed_generation,
        None => 0,
    }
}

/// A surface transaction is ready when it names a valid surface, has a
/// non-empty target and a buffer, its pixels have arrived, and it builds
/// on the surface's current committed generation.
pub open spec fn spec_commit_readiness(
    states: Seq<CommittedSurfaceStateView>,
    t: SurfaceTransaction,
) -> SurfaceTransactionCommitReadiness {
    if !t.surface.spec_valid() {
        SurfaceTransactionCommitReadiness::InvalidSurface
    } else if t.target_geometry.spec_empty() {
        SurfaceTransactionCommitReadiness::EmptyGeometry
    } else if t.target_buffer == BufferSource::Absent {
        SurfaceTransactionCommitReadiness::MissingBuffer
    } else if t.readiness != SurfaceTransactionReadiness::Ready {
        SurfaceTransactionCommitReadiness::NotReady(t.readiness)
    } else if current_generation(states, t.surface) != t.previous_committed_generation {
        SurfaceTransactionCommitReadiness::StaleGeneration {
            current: current_generation(states, t.surface),
            expected: t.previous_committed_generation,
        }
    } else {
        SurfaceTransactionCommitReadiness::Ready
    }
}

/// The outcome a readiness forces, or none when the transaction may commit.
pub open spec fn outcome_of_readiness(r: SurfaceTransactionCommitReadiness) -> Option<TransactionOutcome> {
    match r {
        SurfaceTransactionCommitReadiness::Ready => None,
        SurfaceTransactionCommitReadiness::NotReady(SurfaceTransactionReadiness::Pending) => Some(
            TransactionOutcome::TimedOut,
        ),
        SurfaceTransactionCommitReadiness::NotReady(SurfaceTransactionReadiness::TimedOut) => Some(
            TransactionOutcome::TimedOut,
        ),
        SurfaceTransactionCommitReadiness::NotReady(SurfaceTransactionReadiness::Failed) => Some(
            TransactionOutcome::RejectedStaleSurface,
        ),
        SurfaceTransactionCommitReadiness::StaleGeneration { .. } => Some(
            TransactionOutcome::RejectedStaleSurface,
        ),
        _ => Some(TransactionOutcome::RejectedInvalidSurface),
    }
}

/// The outcome one transaction of a batch forces, if any.
pub open spec fn one_outcome(
    states: Seq<CommittedSurfaceStateView>,
    transaction: TransactionId,
    t: SurfaceTransaction,
) -> Option<TransactionOutcome> {
    if t.transaction != transaction {
        Some(TransactionOutcome::RejectedStaleSurface)
    } else {
        outcome_of_readiness(spec_commit_readiness(states, t))
    }
}

/// The outcome forced by the first transaction of the batch that cannot
/// commit, or none when all can.
pub open spec fn batch_outcome(
    states: Seq<CommittedSurfaceStateView>,
    transaction: TransactionId,
    ts: Seq<SurfaceTransaction>,
) -> Option<TransactionOutcome>
    decreases ts.len(),
{
    if ts.len() == 0 {
        None
    } else {
        match batch_outcome(states, transaction, ts.drop_last()) {
            Some(o) => Some(o),
            None => one_outcome(states, transaction, ts.last()),
        }
    }
}

/// The committed state a transaction produces.
pub open spec fn next_state_of(t: SurfaceTransaction) -> CommittedSurfaceStateView {
    CommittedSurfaceStateView {
        surface: t.surface,
        committed_generation: saturating_add_u64(t.previous_committed_generation, 1),
        geometry: t.target_geometry,
        buffer: t.target_buffer,
        damage: t.damage.rects@,
    }
}

/// The states after one transaction: its surface's state is replaced, or added.
pub open spec fn apply_one(states: Seq<CommittedSurfaceStateView>, t: SurfaceTransaction) -> Seq<
    CommittedSurfaceStateView,
> {
    match first_state_index(states, t.surface) {
        Some(i) => states.update(i, next_state_of(t)),
        None => states.push(next_state_of(t)),
    }
}

/// The states after every transaction of the batch, in order.
pub open spec fn apply_all(states: Seq<CommittedSurfaceStateView>, ts: Seq<SurfaceTransaction>) -> Seq<
    CommittedSurfaceStateView,
>
    decreases ts.len(),
{
    if ts.len() == 0 {
        states
    } else {
        apply_one(apply_all(states, ts.drop_last()), ts.last())
    }
}

/// The surfaces a batch names, in order.
pub open spec fn batch_surfaces(ts: Seq<SurfaceTransaction>) -> Seq<SurfaceId> {
    ts.map_values(|t: SurfaceTransaction| t.surface)
}

/// Once a prefix of a batch fails, the whole batch fails the same way.
pub proof fn lemma_batch_prefix_fails(
    states: Seq<CommittedSurfaceStateView>,
    transaction: TransactionId,
    ts: Seq<SurfaceTransaction>,
    k: int,
)
    requires
        0 <= k <= ts.len(),
        batch_outcome(states, transaction, ts.subrange(0, k)) is Some,
    ensures
        batch_outcome(states, transaction, ts) == batch_outcome(states, transaction, ts.subrange(0, k)),
    decreases ts.len() - k,
{
    if k < ts.len() {
        let next = ts.subrange(0, k + 1);
        assert(next.drop_last() =~= ts.subrange(0, k));
        lemma_batch_prefix_fails(states, transaction, ts, k + 1);
    } else {
        assert(ts.subrange(0, k) =~= ts);
    }
}

/// The index of the first state of `surface` in `states`.
pub fn find_state(states: &Vec<CommittedSurfaceState>, surface: SurfaceId) -> (index: Option<usize>)
    ensures
        match index {
            Some(i) => {
                &&& first_state_index(committed_views(states@), surface) == Some(i as int)
                &&& i < states@.len()
                &&& states@[i as int].surface == surface
            },
            None => first_state_index(committed_views(states@), surface) == None::<int>,
        },
{
    let ghost views = committed_views(states@);
    let mut i: usize = 0;
    while i < states.len()
        invariant
            i <= states@.len(),
            views == committed_views(states@),
            forall|j: int| 0 <= j < i ==> (#[trigger] views[j]).surface != surface,
        decreases states@.len() - i,
    {
        if states[i].surface.same(&surface) {
            proof {
                assert(views[i as int].surface == surface);
                let c = choose|c: int|
                    0 <= c < views.len() && (#[trigger] views[c]).surface == surface && forall|j: int|
                        0 <= j < c ==> (#[trigger] views[j]).surface != surface;
                assert(0 <= c < views.len() && views[c].surface == surface && forall|j: int|
                    0 <= j < c ==> (#[trigger] views[j]).surface != surface) by {
                    assert(views[i as int].surface == surface);
                }
                if c < i {
                } else if c > i {
                    assert(views[i as int].surface != surface);
                }
            }
            return Some(i);
        }
        i = i + 1;
    }
    None
}

/// Whether `t` may be committed on top of `committed`.
pub fn surface_transaction_commit_readiness(
    committed: &Vec<CommittedSurfaceState>,
    t: &SurfaceTransaction,
) -> (readiness: SurfaceTransactionCommitReadiness)
    ensures
        readiness == spec_commit_readiness(committed_views(committed@), *t),
{
    if !t.surface.is_valid() {
        return SurfaceTransactionCommitReadiness::InvalidSurface;
    }
    if t.target_geometry.is_empty() {
        return SurfaceTransactionCommitReadiness::EmptyGeometry;
    }
    match t.target_buffer {
        BufferSource::Absent => return SurfaceTransactionCommitReadiness::MissingBuffer,
        _ => {},
    }
    match t.readiness {
        SurfaceTransactionReadiness::Ready => {},
        other => return SurfaceTransactionCommitReadiness::NotReady(other),
    }
    let current: u64 = match find_state(committed, t.surface) {
        Some(i) => committed[i].committed_generation,
        None => 0,
    };
    if current != t.previous_committed_generation {
        return SurfaceTransactionCommitReadiness::StaleGeneration {
            current,
            expected: t.previous_committed_generation,
        };
    }
    SurfaceTransactionCommitReadiness::Ready
}

fn readiness_outcome(r: SurfaceTransactionCommitReadiness) -> (outcome: Option<TransactionOutcome>)
    ensures
        outcome == outcome_of_readiness(r),
{
    match r {
        SurfaceTransactionCommitReadiness::Ready => None,
        SurfaceTransactionCommitReadiness::NotReady(SurfaceTransactionReadiness::Pending) => Some(
            TransactionOutcome::TimedOut,
        ),
        SurfaceTransactionCommitReadiness::NotReady(SurfaceTransactionReadiness::TimedOut) => Some(
            TransactionOutcome::TimedOut,
        ),
        SurfaceTransactionCommitReadiness::NotReady(SurfaceTransactionReadiness::Failed) => Some(
            TransactionOutcome::RejectedStaleSurface,
        ),
        SurfaceTransactionCommitReadiness::StaleGeneration { .. } => Some(
            TransactionOutcome::RejectedStaleSurface,
        ),
        _ => Some(TransactionOutcome::RejectedInvalidSurface),
    }
}

/// A copy of every committed state.
pub fn copy_states(states: &Vec<CommittedSurfaceState>) -> (copy: Vec<CommittedSurfaceState>)
    ensures
        committed_views(copy@) == committed_views(states@),
{
    let mut copy: Vec<CommittedSurfaceState> = Vec::new();
    let mut i: usize = 0;
    while i < states.len()
        invariant
            i <= states@.len(),
            copy@.len() == i,
            forall|k: int| 0 <= k < i ==> (#[trigger] copy@[k])@ == states@[k]@,
        decreases states@.len() - i,
    {
        copy.push(states[i].copied());
        i = i + 1;
    }
    assert(committed_views(copy@) =~= committed_views(states@));
    copy
}

fn surfaces_of(ts: &[SurfaceTransaction]) -> (surfaces: Vec<SurfaceId>)
    ensures
        surfaces@ == batch_surfaces(ts@),
{
    let mut surfaces: Vec<SurfaceId> = Vec::new();
    let mut i: usize = 0;
    while i < ts.len()
        invariant
            i <= ts@.len(),
            surfaces@ == batch_surfaces(ts@.subrange(0, i as int)),
        decreases ts@.len() - i,
    {
        surfaces.push(ts[i].surface);
        assert(batch_surfaces(ts@.subrange(0, i + 1)) =~= batch_surfaces(ts@.subrange(0, i as int)).push(
            ts@[i as int].surface,
        ));
        i = i + 1;
    }
    assert(ts@.subrange(0, ts@.len() as int) =~= ts@);
    surfaces
}

/// The engine that owns layout commits for one output.
#[derive(Clone, Copy, Debug, PartialEq, Eq, Structural)]
pub struct HeadlessEngine {
    pub output: HeadlessOutput,
}

/// By default the engine renders to the deterministic headless output.
impl Default for HeadlessEngine {
    fn default() -> (engine: HeadlessEngine)
        ensures
            engine.output.id.raw == 1,
            engine.output.size == (Size { width: 1280, height: 720 }),
            engine.output.scale == 1,
    {
        HeadlessEngine { output: HeadlessOutput::default() }
    }
}

impl HeadlessEngine {
    pub fn new(output: HeadlessOutput) -> (engine: HeadlessEngine)
        ensures
            engine.output == output,
    {
        HeadlessEngine { output }
    }

    pub fn output(&self) -> (output: HeadlessOutput)
        ensures
            output == self.output,
    {
        self.output
    }

    /// Commits an authority batch atomically. Every transaction must carry
    /// the batch's id and be ready against the committed state as it was
    /// before the batch; the first one that is not decides the outcome and
    /// nothing changes. Otherwise each transaction in order replaces (or
    /// adds) its surface's committed state, one generation on.
    pub fn commit_surface_transactions(
        &self,
        transaction: TransactionId,
        transactions: &[SurfaceTransaction],
        committed: &mut Vec<CommittedSurfaceState>,
    ) -> (commit: TransactionCommit)
        ensures
            commit.transaction == transaction,
            match batch_outcome(committed_views(old(committed)@), transaction, transactions@) {
                Some(o) => {
                    &&& commit.outcome == o
                    &&& commit.applied_surfaces@.len() == 0
                    &&& committed_views(final(committed)@) == committed_views(old(committed)@)
                },
                None => {
                    &&& commit.outcome == TransactionOutcome::Committed
                    &&& commit.applied_surfaces@ == batch_surfaces(transactions@)
                    &&& committed_views(final(committed)@) == apply_all(
                        committed_views(old(committed)@),
                        transactions@,
                    )
                },
            },
    {
        let ghost before = committed_views(committed@);
        let mut i: usize = 0;
        while i < transactions.len()
            invariant
                i <= transactions@.len(),
                committed_views(committed@) == before,
                batch_outcome(before, transaction, transactions@.subrange(0, i as int)) is None,
            decreases transactions@.len() - i,
        {
            let t = &transactions[i];
            let ghost prefix = transactions@.subrange(0, i as int);
            assert(transactions@.subrange(0, i + 1).drop_last() =~= prefix);
            let outcome = if t.transaction.raw != transaction.raw {
                Some(TransactionOutcome::RejectedStaleSurface)
            } else {
                readiness_outcome(surface_transaction_commit_readiness(committed, t))
            };
            match outcome {
                Some(o) => {
                    proof {
                        lemma_batch_prefix_fails(before, transaction, transactions@, i + 1);
                    }
                    return TransactionCommit { transaction, outcome: o, applied_surfaces: Vec::new() };
                },
                None => {},
            }
            i = i + 1;
        }
        assert(transactions@.subrange(0, transactions@.len() as int) =~= transactions@);
        let mut next = copy_states(committed);
        let mut j: usize = 0;
        while j < transactions.len()
            invariant
                j <= transactions@.len(),
                committed_views(next@) == apply_all(before, transactions@.subrange(0, j as int)),
            decreases transactions@.len() - j,
        {
            let t = &transactions[j];
            let ghost prefix = transactions@.subrange(0, j as int);
            assert(transactions@.subrange(0, j + 1).drop_last() =~= prefix);
            let state = CommittedSurfaceState {
                surface: t.surface,
                committed_generation: t.previous_committed_generation.saturating_add(1),
                geometry: t.target_geometry,
                buffer: t.target_buffer,
                damage: t.damage.copied(),
            };
            assert(state@ == next_state_of(*t));
            let ghost views = committed_views(next@);
            match find_state(&next, t.surface) {
                Some(k) => {
                    next.set(k, state);
                    assert(committed_views(next@) =~= views.update(k as int, next_state_of(*t)));
                },
                None => {
                    next.push(state);
                    assert(committed_views(next@) =~= views.push(next_state_of(*t)));
                },
            }
            j = j + 1;
        }
        *committed = next;
        let applied_surfaces = surfaces_of(transactions);
        TransactionCommit { transaction, outcome: TransactionOutcome::Committed, applied_surfaces }
    }
}

/// Where the window manager wants one surface.
#[derive(Clone, Copy, Debug, PartialEq, Eq, Structural)]
pub struct SurfacePlacement {
    pub surface: SurfaceId,
    pub geometry: Rect,
    pub z_index: i32,
    pub crop: Option<Rect>,
}

/// A size the window manager asks a client to adopt.
#[derive(Clone, Copy, Debug, PartialEq, Eq, Structural)]
pub struct SurfaceSizeRequest {
    pub surface: SurfaceId,
    pub size: Size,
}

/// A layout the window manager proposed for one transaction.
#[derive(Clone, Debug, PartialEq, Eq)]
pub struct LayoutTransaction {
    pub transaction: TransactionId,
    pub render_positions: Vec<SurfacePlacement>,
    pub requested_sizes: Vec<SurfaceSizeRequest>,
    pub focus: Option<SurfaceId>,
    pub timeout_msec: u32,
}

/// The surfaces of a sequence of layers, in order.
pub open spec fn layer_surfaces(layers: Seq<LayerSnapshotView>) -> Seq<SurfaceId> {
    layers.map_values(|l: LayerSnapshotView| l.surface)
}

/// The index of the last occurrence of `surface`, if any.
pub open spec fn last_index_of(surfaces: Seq<SurfaceId>, surface: SurfaceId) -> Option<int> {
    if exists|i: int| 0 <= i < surfaces.len() && surfaces[i] == surface {
        Some(
            choose|i: int|
                0 <= i < surfaces.len() && surfaces[i] == surface && forall|j: int|
                    i < j < surfaces.len() ==> surfaces[j] != surface,
        )
    } else {
        None
    }
}

/// A negative z-index stacks at the bottom.
pub open spec fn z_rank(z_index: i32) -> u32 {
    if z_index >= 0 {
        z_index as u32
    } else {
        0
    }
}

/// A layer after the WM placed it: new geometry, rank and crop; the old and
/// new geometry are damaged; one generation on.
pub open spec fn placed(layer: LayerSnapshotView, p: SurfacePlacement) -> LayerSnapshotView {
    LayerSnapshotView {
        geometry: p.geometry,
        stack_rank: z_rank(p.z_index),
        crop: p.crop,
        damage: seq![layer.geometry, p.geometry],
        generation: saturating_add_u64(layer.generation, 1),
        ..layer
    }
}

/// Every placement names a valid surface that has a layer.
pub open spec fn placements_valid(layers: Seq<LayerSnapshotView>, ps: Seq<SurfacePlacement>) -> bool {
    forall|k: int|
        0 <= k < ps.len() ==> (#[trigger] ps[k]).surface.spec_valid() && last_index_of(
            layer_surfaces(layers),
            ps[k].surface,
        ) is Some
}

/// The layers after every placement, in order; each placement goes to the
/// last layer of its surface.
pub open spec fn apply_placements(layers: Seq<LayerSnapshotView>, ps: Seq<SurfacePlacement>) -> Seq<
    LayerSnapshotView,
>
    decreases ps.len(),
{
    if ps.len() == 0 {
        layers
    } else {
        let before = apply_placements(layers, ps.drop_last());
        match last_index_of(layer_surfaces(layers), ps.last().surface) {
            Some(i) => before.update(i, placed(before[i], ps.last())),
            None => before,
        }
    }
}

/// Placing layers never changes which surface each layer shows.
pub proof fn lemma_placements_keep_surfaces(layers: Seq<LayerSnapshotView>, ps: Seq<SurfacePlacement>)
    ensures
        layer_surfaces(apply_placements(layers, ps)) == layer_surfaces(layers),
    decreases ps.len(),
{
    if ps.len() > 0 {
        lemma_placements_keep_surfaces(layers, ps.drop_last());
        let before = apply_placements(layers, ps.drop_last());
        match last_index_of(layer_surfaces(layers), ps.last().surface) {
            Some(i) => {
                let c = choose|c: int|
                    0 <= c < layer_surfaces(layers).len() && layer_surfaces(layers)[c] == ps.last().surface
                        && forall|j: int|
                        c < j < layer_surfaces(layers).len() ==> layer_surfaces(layers)[j] != ps.last().surface;
                let w = choose|w: int| 0 <= w < layer_surfaces(layers).len() && layer_surfaces(layers)[w] == ps.last().surface;
                lemma_last_index_exists(layer_surfaces(layers), ps.last().surface, w);
                assert(layer_surfaces(apply_placements(layers, ps)) =~= layer_surfaces(layers));
            },
            None => {},
        }
    }
}

/// When `surface` occurs, its last occurrence is found.
pub proof fn lemma_last_index_exists(surfaces: Seq<SurfaceId>, surface: SurfaceId, w: int)
    requires
        0 <= w < surfaces.len(),
        surfaces[w] == surface,
    ensures
        last_index_of(surfaces, surface) matches Some(i) && 0 <= i < surfaces.len() && surfaces[i] == surface
            && forall|j: int| i < j < surfaces.len() ==> surfaces[j] != surface,
    decreases surfaces.len() - w,
{
    if exists|k: int| w < k < surfaces.len() && surfaces[k] == surface {
        let k = choose|k: int| w < k < surfaces.len() && surfaces[k] == surface;
        lemma_last_index_exists(surfaces, surface, k);
    } else {
        assert(0 <= w < surfaces.len() && surfaces[w] == surface && forall|j: int|
            w < j < surfaces.len() ==> surfaces[j] != surface);
    }
}

/// The index of the last layer of `surface`.
pub fn find_last_layer(layers: &Vec<LayerSnapshot>, surface: SurfaceId) -> (index: Option<usize>)
    ensures
        match index {
            Some(i) => {
                &&& last_index_of(layer_surfaces(layer_views(layers@)), surface) == Some(i as int)
                &&& i < layers@.len()
                &&& layers@[i as int].surface == surface
            },
            None => last_index_of(layer_surfaces(layer_views(layers@)), surface) is None,
        },
{
    let ghost surfaces = layer_surfaces(layer_views(layers@));
    let mut found: Option<usize> = None;
    let mut i: usize = 0;
    while i < layers.len()
        invariant
            i <= layers@.len(),
            surfaces == layer_surfaces(layer_views(layers@)),
            surfaces.len() == layers@.len(),
            match found {
                Some(f) => f < i && surfaces[f as int] == surface && forall|j: int|
                    f < j < i ==> surfaces[j] != surface,
                None => forall|j: int| 0 <= j < i ==> surfaces[j] != surface,
            },
        decreases layers@.len() - i,
    {
        if layers[i].surface.same(&surface) {
            found = Some(i);
        }
        i = i + 1;
    }
    proof {
        match found {
            Some(f) => {
                lemma_last_index_exists(surfaces, surface, f as int);
                let c = last_index_of(surfaces, surface)->Some_0;
                if c < f {
                } else if c > f {
                }
            },
            None => {},
        }
    }
    found
}

fn copy_layers(layers: &Vec<LayerSnapshot>) -> (copy: Vec<LayerSnapshot>)
    ensures
        layer_views(copy@) == layer_views(layers@),
{
    let mut copy: Vec<LayerSnapshot> = Vec::new();
    let mut i: usize = 0;
    while i < layers.len()
        invariant
            i <= layers@.len(),
            copy@.len() == i,
            forall|k: int| 0 <= k < i ==> (#[trigger] copy@[k])@ == layers@[k]@,
        decreases layers@.len() - i,
    {
        copy.push(layers[i].copied());
        i = i + 1;
    }
    assert(layer_views(copy@) =~= layer_views(layers@));
    copy
}

fn placement_surfaces(ps: &Vec<SurfacePlacement>) -> (surfaces: Vec<SurfaceId>)
    ensures
        surfaces@ == ps@.map_values(|p: SurfacePlacement| p.surface),
{
    let mut surfaces: Vec<SurfaceId> = Vec::new();
    let mut i: usize = 0;
    while i < ps.len()
        invariant
            i <= ps@.len(),
            surfaces@ == ps@.subrange(0, i as int).map_values(|p: SurfacePlacement| p.surface),
        decreases ps@.len() - i,
    {
        surfaces.push(ps[i].surface);
        assert(ps@.subrange(0, i + 1).map_values(|p: SurfacePlacement| p.surface) =~= ps@.subrange(
            0,
            i as int,
        ).map_values(|p: SurfacePlacement| p.surface).push(ps@[i as int].surface));
        i = i + 1;
    }
    assert(ps@.subrange(0, ps@.len() as int) =~= ps@);
    surfaces
}

/// The damage of a move: where the layer was, then where it is.
pub fn moved_damage(old_geometry: Rect, new_geometry: Rect) -> (damage: Region)
    ensures
        damage.rects@ == seq![old_geometry, new_geometry],
{
    let mut damage = Region::single(old_geometry);
    damage.extend(&Region::single(new_geometry));
    damage
}

/// Moves the layer at `index` to the placement.
fn place_layer(layers: &mut Vec<LayerSnapshot>, index: usize, p: SurfacePlacement)
    requires
        index < old(layers)@.len(),
    ensures
        layer_views(final(layers)@) == layer_views(old(layers)@).update(
            index as int,
            placed(layer_views(old(layers)@)[index as int], p),
        ),
{
    let ghost views = layer_views(layers@);
    let old = layers[index].copied();
    let rank: u32 = if p.z_index >= 0 { p.z_index as u32 } else { 0 };
    let layer = LayerSnapshot {
        surface: old.surface,
        window: old.window,
        stack_rank: rank,
        geometry: p.geometry,
        source: old.source,
        damage: moved_damage(old.geometry, p.geometry),
        crop: p.crop,
        opacity_bits: old.opacity_bits,
        generation: old.generation.saturating_add(1),
        resize_sync: old.resize_sync,
    };
    assert(layer.damage.rects@ =~= seq![old.geometry, p.geometry]);
    assert(layer@ == placed(views[index as int], p));
    layers.set(index, layer);
    assert(layer_views(layers@) =~= views.update(index as int, placed(views[index as int], p)));
}

/// One more placement moves the last layer of its surface.
proof fn lemma_apply_placements_step(layers: Seq<LayerSnapshotView>, ps: Seq<SurfacePlacement>, k: int)
    requires
        0 <= k < ps.len(),
    ensures
        apply_placements(layers, ps.subrange(0, k + 1)) == match last_index_of(
            layer_surfaces(layers),
            ps[k].surface,
        ) {
            Some(i) => apply_placements(layers, ps.subrange(0, k)).update(
                i,
                placed(apply_placements(layers, ps.subrange(0, k))[i], ps[k]),
            ),
            None => apply_placements(layers, ps.subrange(0, k)),
        },
{
    let s = ps.subrange(0, k + 1);
    assert(s.drop_last() =~= ps.subrange(0, k));
    assert(s.last() == ps[k]);
}

/// A valid prefix of placements followed by a valid placement is valid.
proof fn lemma_placements_valid_extend(layers: Seq<LayerSnapshotView>, ps: Seq<SurfacePlacement>, k: int)
    requires
        0 <= k < ps.len(),
        placements_valid(layers, ps.subrange(0, k)),
        ps[k].surface.spec_valid(),
        last_index_of(layer_surfaces(layers), ps[k].surface) is Some,
    ensures
        placements_valid(layers, ps.subrange(0, k + 1)),
{
    assert forall|m: int| 0 <= m < k + 1 implies (#[trigger] ps.subrange(0, k + 1)[m]).surface.spec_valid()
        && last_index_of(layer_surfaces(layers), ps.subrange(0, k + 1)[m].surface) is Some by {
        if m < k {
            assert(ps.subrange(0, k + 1)[m] == ps.subrange(0, k)[m]);
        }
    }
}

impl HeadlessEngine {
    /// The layers with every placement of the transaction applied, or
    /// `InvalidSurface` when a placement names an invalid or unknown surface.
    #[verifier::rlimit(40)]
    pub fn apply_layout_transaction(&self, transaction: &LayoutTransaction, layers: Vec<LayerSnapshot>) -> (placed_layers:
        Result<Vec<LayerSnapshot>, EngineError>)
        ensures
            match placed_layers {
                Ok(ls) => placements_valid(layer_views(layers@), transaction.render_positions@) && layer_views(ls@)
                    == apply_placements(layer_views(layers@), transaction.render_positions@),
                Err(e) => !placements_valid(layer_views(layers@), transaction.render_positions@) && e
                    == EngineError::InvalidSurface,
            },
    {
        let ghost initial = layer_views(layers@);
        let ps = &transaction.render_positions;
        let mut work = layers;
        let mut k: usize = 0;
        while k < ps.len()
            invariant
                k <= ps@.len(),
                initial == layer_views(layers@),
                ps@ == transaction.render_positions@,
                layer_views(work@) == apply_placements(initial, ps@.subrange(0, k as int)),
                placements_valid(initial, ps@.subrange(0, k as int)),
            decreases ps@.len() - k,
        {
            let p = ps[k];
            let ghost prefix = ps@.subrange(0, k as int);
            assert(ps@.subrange(0, k + 1).drop_last() =~= prefix);
            proof {
                lemma_placements_keep_surfaces(initial, prefix);
            }
            if !p.surface.is_valid() {
                assert(!placements_valid(initial, ps@)) by {
                    assert(ps@[k as int] == p);
                }
                return Err(EngineError::InvalidSurface);
            }
            let index = match find_last_layer(&work, p.surface) {
                Some(index) => index,
                None => {
                    assert(!placements_valid(initial, ps@)) by {
                        assert(ps@[k as int] == p);
                    }
                    return Err(EngineError::InvalidSurface);
                },
            };
            place_layer(&mut work, index, p);
            proof {
                lemma_placements_valid_extend(initial, ps@, k as int);
                lemma_apply_placements_step(initial, ps@, k as int);
            }
            k = k + 1;
        }
        assert(ps@.subrange(0, ps@.len() as int) =~= ps@);
        Ok(work)
    }

    /// Commits a layout transaction atomically: all placements apply, or
    /// (when one names an invalid or unknown surface) none do.
    pub fn commit_layout_transaction(&self, transaction: &LayoutTransaction, layers: &mut Vec<LayerSnapshot>) -> (commit:
        TransactionCommit)
        ensures
            commit.transaction == transaction.transaction,
            if placements_valid(layer_views(old(layers)@), transaction.render_positions@) {
                &&& commit.outcome == TransactionOutcome::Committed
                &&& commit.applied_surfaces@ == transaction.render_positions@.map_values(
                    |p: SurfacePlacement| p.surface,
                )
                &&& layer_views(final(layers)@) == apply_placements(
                    layer_views(old(layers)@),
                    transaction.render_positions@,
                )
            } else {
                &&& commit.outcome == TransactionOutcome::RejectedInvalidSurface
                &&& commit.applied_surfaces@.len() == 0
                &&& layer_views(final(layers)@) == layer_views(old(layers)@)
            },
    {
        let applied_surfaces = placement_surfaces(&transaction.render_positions);
        let copy = copy_layers(layers);
        match self.apply_layout_transaction(transaction, copy) {
            Ok(committed) => {
                *layers = committed;
                TransactionCommit {
                    transaction: transaction.transaction,
                    outcome: TransactionOutcome::Committed,
                    applied_surfaces,
                }
            },
            Err(_) => TransactionCommit {
                transaction: transaction.transaction,
                outcome: TransactionOutcome::RejectedInvalidSurface,
                applied_surfaces: Vec::new(),
            },
        }
    }

    /// Without a window manager the committed layout stays as it is; the
    /// transaction times out.
    pub fn preserve_layout_on_wm_absent(&self, transaction: TransactionId, layers: &[LayerSnapshot]) -> (commit:
        TransactionCommit)
        ensures
            commit.transaction == transaction,
            commit.outcome == TransactionOutcome::TimedOut,
            commit.applied_surfaces@.len() == 0,
    {
        TransactionCommit { transaction, outcome: TransactionOutcome::TimedOut, applied_surfaces: Vec::new() }
    }

    /// What a WM round trip leaves: a valid layout response commits (or is
    /// rejected) as one transaction; an IPC failure keeps the layers as they
    /// are, times the transaction out, and is reported.
    pub fn commit_wm_response(
        &self,
        transaction: TransactionId,
        response: Result<LayoutTransaction, WmIpcError>,
        layers: &mut Vec<LayerSnapshot>,
    ) -> (update: WmTransactionUpdate)
        ensures
            match response {
                Ok(t) => {
                    &&& update.ipc_error is None
                    &&& update.commit.transaction == t.transaction
                    &&& if placements_valid(layer_views(old(layers)@), t.render_positions@) {
                        &&& update.commit.outcome == TransactionOutcome::Committed
                        &&& update.commit.applied_surfaces@ == t.render_positions@.map_values(
                            |p: SurfacePlacement| p.surface,
                        )
                        &&& layer_views(final(layers)@) == apply_placements(
                            layer_views(old(layers)@),
                            t.render_positions@,
                        )
                    } else {
                        &&& update.commit.outcome == TransactionOutcome::RejectedInvalidSurface
                        &&& update.commit.applied_surfaces@.len() == 0
                        &&& layer_views(final(layers)@) == layer_views(old(layers)@)
                    }
                },
                Err(e) => {
                    &&& update.ipc_error == Some(e)
                    &&& update.commit.transaction == transaction
                    &&& update.commit.outcome == TransactionOutcome::TimedOut
                    &&& update.commit.applied_surfaces@.len() == 0
                    &&& layer_views(final(layers)@) == layer_views(old(layers)@)
                },
            },
    {
        match response {
            Ok(t) => WmTransactionUpdate { commit: self.commit_layout_transaction(&t, layers), ipc_error: None },
            Err(error) => WmTransactionUpdate {
                commit: self.preserve_layout_on_wm_absent(transaction, layers.as_slice()),
                ipc_error: Some(error),
            },
        }
    }

    /// The committed state a layer shows.
    pub fn committed_state_from_layer(&self, layer: &LayerSnapshot) -> (state: CommittedSurfaceState)
        ensures
            state@ == (CommittedSurfaceStateView {
                surface: layer.surface,
                committed_generation: layer.generation,
                geometry: layer.geometry,
                buffer: layer.source,
                damage: layer.damage.rects@,
            }),
    {
        CommittedSurfaceState {
            surface: layer.surface,
            committed_generation: layer.generation,
            geometry: layer.geometry,
            buffer: layer.source,
            damage: layer.damage.copied(),
        }
    }

    /// The template layer showing the committed state, or `InvalidSurface`
    /// when either surface is invalid or they differ.
    pub fn project_committed_surface_state(
        &self,
        committed: &CommittedSurfaceState,
        template: &LayerSnapshot,
    ) -> (layer: Result<LayerSnapshot, EngineError>)
        ensures
            match layer {
                Ok(l) => projection_valid(committed@, template@) && l@ == spec_project(committed@, template@),
                Err(e) => !projection_valid(committed@, template@) && e == EngineError::InvalidSurface,
            },
    {
        if !committed.surface.is_valid() || !template.surface.is_valid() {
            return Err(EngineError::InvalidSurface);
        }
        if !committed.surface.same(&template.surface) {
            return Err(EngineError::InvalidSurface);
        }
        let mut layer = template.copied();
        layer.geometry = committed.geometry;
        layer.source = committed.buffer;
        layer.damage = committed.damage.copied();
        layer.generation = committed.committed_generation;
        Ok(layer)
    }

    /// Each committed state projected onto the last template of its
    /// surface, in the order of `committed`; `InvalidSurface` when a state
    /// has no template or cannot be projected.
    pub fn project_committed_surface_states(
        &self,
        committed: &Vec<CommittedSurfaceState>,
        templates: &Vec<LayerSnapshot>,
    ) -> (layers: Result<Vec<LayerSnapshot>, EngineError>)
        ensures
            match layers {
                Ok(ls) => {
                    &&& ls@.len() == committed@.len()
                    &&& forall|i: int|
                        0 <= i < committed@.len() ==> (#[trigger] projection_for(
                            committed@[i]@,
                            layer_views(templates@),
                        )) == Some(ls@[i]@)
                },
                Err(e) => e == EngineError::InvalidSurface && exists|i: int|
                    0 <= i < committed@.len() && (#[trigger] projection_for(
                        committed@[i]@,
                        layer_views(templates@),
                    )) is None,
            },
    {
        let mut layers: Vec<LayerSnapshot> = Vec::new();
        let mut i: usize = 0;
        while i < committed.len()
            invariant
                i <= committed@.len(),
                layers@.len() == i,
                forall|k: int|
                    0 <= k < i ==> (#[trigger] projection_for(committed@[k]@, layer_views(templates@)))
                        == Some(layers@[k]@),
            decreases committed@.len() - i,
        {
            let state = &committed[i];
            let ghost old_layers = layers@;
            let index = match find_last_layer(templates, state.surface) {
                Some(index) => index,
                None => {
                    assert(projection_for(committed@[i as int]@, layer_views(templates@)) is None);
                    return Err(EngineError::InvalidSurface);
                },
            };
            match self.project_committed_surface_state(state, &templates[index]) {
                Ok(layer) => {
                    proof {
                        assert(layer_views(templates@)[index as int] == templates@[index as int]@);
                        assert(projection_for(committed@[i as int]@, layer_views(templates@)) == Some(layer@));
                    }
                    layers.push(layer);
                    assert(layers@[i as int]@ == layer@);
                    assert forall|k: int| 0 <= k < i + 1 implies (#[trigger] projection_for(
                        committed@[k]@,
                        layer_views(templates@),
                    )) == Some(layers@[k]@) by {
                        if k < i {
                            assert(layers@[k] == old_layers[k]);
                        }
                    }
                },
                Err(e) => {
                    assert(projection_for(committed@[i as int]@, layer_views(templates@)) is None);
                    return Err(e);
                },
            }
            i = i + 1;
        }
        Ok(layers)
    }
}

/// A committed state can be projected onto a template of the same valid surface.
pub open spec fn projection_valid(c: CommittedSurfaceStateView, t: LayerSnapshotView) -> bool {
    c.surface.spec_valid() && t.surface.spec_valid() && c.surface == t.surface
}

/// The template showing the committed geometry, buffer, damage and generation.
pub open spec fn spec_project(c: CommittedSurfaceStateView, t: LayerSnapshotView) -> LayerSnapshotView {
    LayerSnapshotView {
        geometry: c.geometry,
        source: c.buffer,
        damage: c.damage,
        generation: c.committed_generation,
        ..t
    }
}

/// The projection of `c` onto the last template of its surface, if there is one.
pub open spec fn projection_for(c: CommittedSurfaceStateView, templates: Seq<LayerSnapshotView>) -> Option<
    LayerSnapshotView,
> {
    match last_index_of(layer_surfaces(templates), c.surface) {
        Some(i) => if projection_valid(c, templates[i]) {
            Some(spec_project(c, templates[i]))
        } else {
            None
        },
        None => None,
    }
}

} // verus!
