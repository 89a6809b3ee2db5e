//! Holding an authority batch until the page flip of its output: the batch
//! commits on the flip once none of its surfaces still waits for pixels.

use vstd::prelude::*;

use crate::engine::{
    HeadlessEngine, SurfaceTransactionCommitReadiness, apply_all, batch_outcome, batch_surfaces,
    spec_commit_readiness,
};
use crate::frame::FrameClockTick;
use crate::protocol::{
    CommittedSurfaceState, CommittedSurfaceStateView, OutputId, SurfaceId, SurfaceTransaction,
    SurfaceTransactionReadiness, TransactionCommit, TransactionId, TransactionOutcome, committed_views,
};

verus! {

broadcast use vstd::seq_lib::group_seq_properties;

/// An authority batch staged for the next page flip of `output`.
#[derive(Clone, Debug, PartialEq, Eq)]
pub struct PageFlipTransactionBatch {
    pub output: OutputId,
    pub transaction: TransactionId,
    pub transactions: Vec<SurfaceTransaction>,
}

/// What a page flip did with the staged batch.
#[derive(Clone, Debug, PartialEq, Eq)]
pub enum PageFlipCommitOutcome {
    Idle,
    WaitingForOutput { expected: OutputId, actual: OutputId, transaction: TransactionId },
    WaitingForTransactionReadiness { transaction: TransactionId, pending_surfaces: Vec<SurfaceId> },
    Committed { frame_serial: u64, commit: TransactionCommit },
    Rejected { frame_serial: u64, commit: TransactionCommit },
}

/// The surfaces of the batch whose pixels are still pending, in order.
pub open spec fn pending_surfaces(states: Seq<CommittedSurfaceStateView>, ts: Seq<SurfaceTransaction>) -> Seq<
    SurfaceId,
>
    decreases ts.len(),
{
    if ts.len() == 0 {
        Seq::empty()
    } else {
        let rest = pending_surfaces(states, ts.drop_last());
        if spec_commit_readiness(states, ts.last()) == SurfaceTransactionCommitReadiness::NotReady(
            SurfaceTransactionReadiness::Pending,
        ) {
            rest.push(ts.last().surface)
        } else {
            rest
        }
    }
}

/// The surfaces of `ts` still waiting for pixels against `committed`.
pub fn collect_pending_surfaces(committed: &Vec<CommittedSurfaceState>, ts: &Vec<SurfaceTransaction>) -> (pending:
    Vec<SurfaceId>)
    ensures
        pending@ == pending_surfaces(committed_views(committed@), ts@),
{
    let mut pending: Vec<SurfaceId> = Vec::new();
    let mut i: usize = 0;
    while i < ts.len()
        invariant
            i <= ts@.len(),
            pending@ == pending_surfaces(committed_views(committed@), ts@.subrange(0, i as int)),
        decreases ts@.len() - i,
    {
        let t = &ts[i];
        assert(ts@.subrange(0, i + 1).drop_last() =~= ts@.subrange(0, i as int));
        assert(ts@.subrange(0, i + 1).last() == ts@[i as int]);
        match crate::engine::surface_transaction_commit_readiness(committed, t) {
            SurfaceTransactionCommitReadiness::NotReady(SurfaceTransactionReadiness::Pending) => {
                pending.push(t.surface);
            },
            _ => {},
        }
        i = i + 1;
    }
    assert(ts@.subrange(0, ts@.len() as int) =~= ts@);
    pending
}

/// Holds at most one authority batch until the page flip of its output.
#[derive(Clone, Debug, PartialEq, Eq)]
pub struct PageFlipCommitGate {
    staged: Option<PageFlipTransactionBatch>,
}

impl PageFlipCommitGate {
    /// The staged batch, if any.
    pub closed spec fn batch(&self) -> Option<PageFlipTransactionBatch> {
        self.staged
    }

    pub fn new() -> (gate: PageFlipCommitGate)
        ensures
            gate.batch() is None,
    {
        PageFlipCommitGate { staged: None }
    }

    /// Stages a batch, replacing any batch staged before.
    pub fn stage(&mut self, output: OutputId, transaction: TransactionId, transactions: Vec<SurfaceTransaction>)
        ensures
            final(self).batch() == Some(PageFlipTransactionBatch { output, transaction, transactions }),
    {
        self.staged = Some(PageFlipTransactionBatch { output, transaction, transactions });
    }

    pub fn staged(&self) -> (batch: Option<&PageFlipTransactionBatch>)
        ensures
            match batch {
                Some(b) => self.batch() == Some(*b),
                None => self.batch() is None,
            },
    {
        match &self.staged {
            Some(b) => Some(b),
            None => None,
        }
    }

    /// Takes the staged batch out, leaving nothing staged.
    pub fn clear(&mut self) -> (batch: Option<PageFlipTransactionBatch>)
        ensures
            batch == old(self).batch(),
            final(self).batch() is None,
    {
        self.staged.take()
    }

    /// On a page flip of the staged batch's output, once none of its
    /// surfaces is still pending, commits the batch and leaves nothing staged.
    /// Otherwise nothing changes and the outcome says what the batch waits for.
    pub fn commit_on_page_flip(
        &mut self,
        engine: &HeadlessEngine,
        tick: FrameClockTick,
        committed: &mut Vec<CommittedSurfaceState>,
    ) -> (outcome: PageFlipCommitOutcome)
        ensures
            match old(self).batch() {
                None => {
                    &&& outcome == PageFlipCommitOutcome::Idle
                    &&& final(self).batch() is None
                    &&& committed_views(final(committed)@) == committed_views(old(committed)@)
                },
                Some(b) => if b.output != tick.output {
                    &&& outcome == PageFlipCommitOutcome::WaitingForOutput {
                        expected: b.output,
                        actual: tick.output,
                        transaction: b.transaction,
                    }
                    &&& final(self).batch() == old(self).batch()
                    &&& committed_views(final(committed)@) == committed_views(old(committed)@)
                } else if pending_surfaces(committed_views(old(committed)@), b.transactions@).len() > 0 {
                    &&& outcome matches PageFlipCommitOutcome::WaitingForTransactionReadiness {
                        transaction,
                        pending_surfaces: p,
                    } && transaction == b.transaction && p@ == pending_surfaces(
                        committed_views(old(committed)@),
                        b.transactions@,
                    )
                    &&& final(self).batch() == old(self).batch()
                    &&& committed_views(final(committed)@) == committed_views(old(committed)@)
                } else {
                    &&& final(self).batch() is None
                    &&& page_flip_commit(
                        outcome,
                        tick.frame_serial,
                        b,
                        committed_views(old(committed)@),
                        committed_views(final(committed)@),
                    )
                },
            },
    {
        let batch = match &self.staged {
            Some(b) => b,
            None => return PageFlipCommitOutcome::Idle,
        };
        if batch.output.raw != tick.output.raw {
            return PageFlipCommitOutcome::WaitingForOutput {
                expected: batch.output,
                actual: tick.output,
                transaction: batch.transaction,
            };
        }
        let pending = collect_pending_surfaces(committed, &batch.transactions);
        if pending.len() > 0 {
            return PageFlipCommitOutcome::WaitingForTransactionReadiness {
                transaction: batch.transaction,
                pending_surfaces: pending,
            };
        }
        let batch = match self.staged.take() {
            Some(b) => b,
            None => return PageFlipCommitOutcome::Idle,
        };
        let commit = engine.commit_surface_transactions(batch.transaction, batch.transactions.as_slice(), committed);
        proof {
            lemma_batch_outcome_not_committed(committed_views(old(committed)@), batch.transaction, batch.transactions@);
        }
        let committed_ok = match commit.outcome {
            TransactionOutcome::Committed => true,
            _ => false,
        };
        if committed_ok {
            PageFlipCommitOutcome::Committed { frame_serial: tick.frame_serial, commit }
        } else {
            PageFlipCommitOutcome::Rejected { frame_serial: tick.frame_serial, commit }
        }
    }
}

/// A failing batch never reports itself committed.
pub proof fn lemma_batch_outcome_not_committed(
    states: Seq<CommittedSurfaceStateView>,
    transaction: TransactionId,
    ts: Seq<SurfaceTransaction>,
)
    ensures
        batch_outcome(states, transaction, ts) != Some(TransactionOutcome::Committed),
    decreases ts.len(),
{
    if ts.len() > 0 {
        lemma_batch_outcome_not_committed(states, transaction, ts.drop_last());
    }
}

/// The outcome and the committed states of a page flip that committed `b`
/// on top of `before`, as `HeadlessEngine::commit_surface_transactions` does.
pub open spec fn page_flip_commit(
    outcome: PageFlipCommitOutcome,
    frame_serial: u64,
    b: PageFlipTransactionBatch,
    before: Seq<CommittedSurfaceStateView>,
    after: Seq<CommittedSurfaceStateView>,
) -> bool {
    match batch_outcome(before, b.transaction, b.transactions@) {
        Some(o) => {
            &&& outcome matches PageFlipCommitOutcome::Rejected { frame_serial: s, commit } && s == frame_serial
                && commit.transaction == b.transaction && commit.outcome == o && commit.applied_surfaces@.len()
                == 0
            &&& after == before
        },
        None => {
            &&& outcome matches PageFlipCommitOutcome::Committed { frame_serial: s, commit } && s == frame_serial
                && commit.transaction == b.transaction && commit.outcome == TransactionOutcome::Committed
                && commit.applied_surfaces@ == batch_surfaces(b.transactions@)
            &&& after == apply_all(before, b.transactions@)
        },
    }
}

} // verus!
