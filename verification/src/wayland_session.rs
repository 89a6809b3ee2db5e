//! The decisions of a Wayland client session's loop: when to ask the first
//! committed surface to resize, which commits count, which of them reached
//! the requested size, and what a destroyed surface leaves behind. Times are
//! milliseconds since the session started.

use vstd::prelude::*;

use crate::engine::{find_state, first_state_index};
use crate::protocol::{
    CommittedSurfaceState, CommittedSurfaceStateView, Size, SurfaceId, SurfaceTransaction, TransactionCommit,
    TransactionOutcome, committed_views,
};
use crate::wayland_config::WaylandSessionConfig;

verus! {

/// What the session loop counted so far.
#[derive(Clone, Copy, Debug, PartialEq, Eq, Structural)]
pub struct WaylandSessionProgress {
    pub resize_requested: bool,
    pub resize_commits: usize,
    pub transactions: usize,
}

/// `n + 1`, or `usize::MAX` when that does not fit.
pub open spec fn saturating_inc(n: usize) -> usize {
    if n == usize::MAX { n } else { (n + 1) as usize }
}

/// The surface to resize and the size, once it is time: a resize was asked
/// for, none was requested yet, its delay has passed, and a surface is
/// committed; the first committed surface is the one resized.
pub open spec fn spec_resize_due(
    p: WaylandSessionProgress,
    resize: Option<Size>,
    resize_after_msec: u64,
    now_msec: u64,
    committed: Seq<CommittedSurfaceStateView>,
) -> Option<(SurfaceId, Size)> {
    if !p.resize_requested && resize is Some && now_msec >= resize_after_msec && committed.len() > 0 {
        Some((committed[0].surface, resize->Some_0))
    } else {
        None
    }
}

/// The generation `surface` was committed at by `commit`, when the commit
/// went through and applied it.
pub open spec fn spec_committed_generation(
    commit: TransactionCommit,
    surface: SurfaceId,
    committed: Seq<CommittedSurfaceStateView>,
) -> Option<u64> {
    if commit.outcome == TransactionOutcome::Committed && commit.applied_surfaces@.contains(surface) {
        match first_state_index(committed, surface) {
            Some(i) => Some(committed[i].committed_generation),
            None => None,
        }
    } else {
        None
    }
}

/// A committed transaction whose geometry has the requested size, after the
/// resize was requested.
pub open spec fn is_resize_commit(
    p: WaylandSessionProgress,
    resize: Option<Size>,
    transaction: SurfaceTransaction,
    generation: Option<u64>,
) -> bool {
    &&& generation is Some
    &&& p.resize_requested
    &&& resize matches Some(size) && transaction.target_geometry.width == size.width
        && transaction.target_geometry.height == size.height
}

/// The states of the surfaces other than `surface`, in order.
pub open spec fn without_surface(states: Seq<CommittedSurfaceStateView>, surface: SurfaceId) -> Seq<
    CommittedSurfaceStateView,
> {
    states.filter(|s: CommittedSurfaceStateView| s.surface != surface)
}

impl WaylandSessionProgress {
    pub fn new() -> (progress: WaylandSessionProgress)
        ensures
            progress == (WaylandSessionProgress { resize_requested: false, resize_commits: 0, transactions: 0 }),
    {
        WaylandSessionProgress { resize_requested: false, resize_commits: 0, transactions: 0 }
    }

    /// The surface and size to ask for now, if a resize is due.
    pub fn resize_due(&self, config: &WaylandSessionConfig, now_msec: u64, committed: &Vec<CommittedSurfaceState>) -> (due:
        Option<(SurfaceId, Size)>)
        ensures
            due == spec_resize_due(*self, config.resize, config.resize_after_msec, now_msec, committed_views(committed@)),
    {
        if self.resize_requested || committed.len() == 0 || now_msec < config.resize_after_msec {
            return None;
        }
        match config.resize {
            Some(size) => Some((committed[0].surface, size)),
            None => None,
        }
    }

    /// The client accepted the resize request.
    pub fn record_resize_requested(&mut self)
        ensures
            *final(self) == (WaylandSessionProgress { resize_requested: true, ..*old(self) }),
    {
        self.resize_requested = true;
    }

    /// Counts an authority transaction and its commit, against the
    /// committed states after it; returns the generation it committed the
    /// surface at, if it did.
    pub fn observe_commit(
        &mut self,
        config: &WaylandSessionConfig,
        transaction: &SurfaceTransaction,
        commit: &TransactionCommit,
        committed: &Vec<CommittedSurfaceState>,
    ) -> (generation: Option<u64>)
        ensures
            generation == spec_committed_generation(*commit, transaction.surface, committed_views(committed@)),
            final(self).resize_requested == old(self).resize_requested,
            final(self).transactions == saturating_inc(old(self).transactions),
            final(self).resize_commits == if is_resize_commit(*old(self), config.resize, *transaction, generation) {
                saturating_inc(old(self).resize_commits)
            } else {
                old(self).resize_commits
            },
    {
        self.transactions = self.transactions.saturating_add(1);
        let committed_ok = match commit.outcome {
            TransactionOutcome::Committed => true,
            _ => false,
        };
        let generation = if committed_ok && surface_listed(&commit.applied_surfaces, transaction.surface) {
            match find_state(committed, transaction.surface) {
                Some(i) => Some(committed[i].committed_generation),
                None => None,
            }
        } else {
            None
        };
        let reached = match config.resize {
            Some(size) => transaction.target_geometry.width == size.width && transaction.target_geometry.height
                == size.height,
            None => false,
        };
        if generation.is_some() && self.resize_requested && reached {
            self.resize_commits = self.resize_commits.saturating_add(1);
        }
        generation
    }
}

/// Whether `surface` is among `surfaces`.
fn surface_listed(surfaces: &Vec<SurfaceId>, surface: SurfaceId) -> (found: bool)
    ensures
        found == surfaces@.contains(surface),
{
    let mut i: usize = 0;
    while i < surfaces.len()
        invariant
            i <= surfaces@.len(),
            forall|j: int| 0 <= j < i ==> surfaces@[j] != surface,
        decreases surfaces@.len() - i,
    {
        if surfaces[i].same(&surface) {
            return true;
        }
        i = i + 1;
    }
    false
}

/// Drops every committed state of a destroyed surface; returns the surface
/// that should take focus next, the first one left.
pub fn remove_destroyed_surface(committed: &mut Vec<CommittedSurfaceState>, surface: SurfaceId) -> (next:
    Option<SurfaceId>)
    ensures
        committed_views(final(committed)@) == without_surface(committed_views(old(committed)@), surface),
        next == if final(committed)@.len() > 0 {
            Some(final(committed)@[0].surface)
        } else {
            None::<SurfaceId>
        },
{
    let ghost keep = |s: CommittedSurfaceStateView| s.surface != surface;
    let ghost all = committed_views(committed@);
    let mut kept: Vec<CommittedSurfaceState> = Vec::new();
    let mut i: usize = 0;
    while i < committed.len()
        invariant
            i <= committed@.len(),
            all == committed_views(committed@),
            committed@ == old(committed)@,
            keep == (|s: CommittedSurfaceStateView| s.surface != surface),
            committed_views(kept@) == all.subrange(0, i as int).filter(keep),
        decreases committed@.len() - i,
    {
        proof {
            assert(all.subrange(0, i + 1) =~= all.subrange(0, i as int).push(all[i as int]));
            all.subrange(0, i as int).lemma_filter_push(all[i as int], keep);
        }
        if !committed[i].surface.same(&surface) {
            let ghost before = kept@;
            kept.push(committed[i].copied());
            assert(committed_views(kept@) =~= committed_views(before).push(all[i as int]));
        }
        i = i + 1;
    }
    assert(all.subrange(0, all.len() as int) =~= all);
    *committed = kept;
    if committed.len() > 0 {
        Some(committed[0].surface)
    } else {
        None
    }
}

} // verus!
