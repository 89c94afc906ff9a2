//! Per-client point records: the available/locked pair, feasibility,
//! apply semantics, and wait-die arbitration.

use vstd::prelude::*;

use crate::error::StoreError;
use crate::transaction::{
    lemma_older_than_total, lemma_same_identity_not_older, Transaction, TransactionAction,
};

verus! {

/// The points of one client: `Points(available, locked)`.
#[derive(Debug, Clone, Copy, PartialEq, Eq, Structural)]
pub struct Points(pub usize, pub usize);

/// The net change an action makes to a client's total points: an Add
/// brings points in, a Consume takes them out, and a Lock or Free only
/// moves them between the two components.
pub open spec fn tx_delta(action: TransactionAction, n: usize) -> int {
    match action {
        TransactionAction::Add => n as int,
        TransactionAction::Lock => 0,
        TransactionAction::Free => 0,
        TransactionAction::Consume => -(n as int),
    }
}

impl Points {
    /// Local feasibility: a Lock needs the points available, a Free or
    /// Consume needs them locked, an Add is always feasible.
    pub open spec fn spec_can_perform(self, action: TransactionAction, n: usize) -> bool {
        match action {
            TransactionAction::Add => true,
            TransactionAction::Lock => self.0 >= n,
            TransactionAction::Free => self.1 >= n,
            TransactionAction::Consume => self.1 >= n,
        }
    }

    /// Whether applying the transaction stays within machine bounds.
    pub open spec fn spec_fits(self, action: TransactionAction, n: usize) -> bool {
        match action {
            TransactionAction::Add => self.0 + n <= usize::MAX,
            TransactionAction::Lock => self.1 + n <= usize::MAX,
            TransactionAction::Free => self.0 + n <= usize::MAX,
            TransactionAction::Consume => true,
        }
    }

    /// The pair after applying the transaction, as unbounded integers.
    pub open spec fn spec_apply(self, action: TransactionAction, n: usize) -> (int, int) {
        match action {
            TransactionAction::Add => (self.0 + n, self.1 as int),
            TransactionAction::Lock => (self.0 - n, self.1 + n),
            TransactionAction::Free => (self.0 + n, self.1 - n),
            TransactionAction::Consume => (self.0 as int, self.1 - n),
        }
    }

    /// Checks local feasibility, naming the shortfall.
    pub fn can_perform(&self, transaction: &Transaction) -> (r: Result<(), StoreError>)
        ensures
            r is Ok <==> self.spec_can_perform(transaction.action, transaction.points),
            r is Err ==> transaction.action == TransactionAction::Lock
                && r == Err::<(), StoreError>(StoreError::LockInsufficient)
                || transaction.action != TransactionAction::Lock
                && r == Err::<(), StoreError>(StoreError::LockedInsufficient),
    {
        match transaction.action {
            TransactionAction::Add => Ok(()),
            TransactionAction::Lock => {
                if self.0 < transaction.points {
                    Err(StoreError::LockInsufficient)
                } else {
                    Ok(())
                }
            },
            _ => {
                if self.1 < transaction.points {
                    Err(StoreError::LockedInsufficient)
                } else {
                    Ok(())
                }
            },
        }
    }

    /// Applies a feasible transaction: Add raises available, Lock moves
    /// available to locked, Free moves locked back, Consume lowers
    /// locked.
    pub fn apply(&mut self, transaction: Transaction)
        requires
            old(self).spec_can_perform(transaction.action, transaction.points),
            old(self).spec_fits(transaction.action, transaction.points),
        ensures
            final(self).0 == old(self).spec_apply(transaction.action, transaction.points).0,
            final(self).1 == old(self).spec_apply(transaction.action, transaction.points).1,
    {
        match transaction.action {
            TransactionAction::Add => {
                self.0 = self.0 + transaction.points;
            },
            TransactionAction::Lock => {
                self.0 = self.0 - transaction.points;
                self.1 = self.1 + transaction.points;
            },
            TransactionAction::Free => {
                self.0 = self.0 + transaction.points;
                self.1 = self.1 - transaction.points;
            },
            TransactionAction::Consume => {
                self.1 = self.1 - transaction.points;
            },
        }
    }
}

/// A feasible transaction keeps both components of the pair
/// non-negative: no apply can drive a client's points below zero.
pub proof fn lemma_apply_nonnegative(p: Points, action: TransactionAction, n: usize)
    requires
        p.spec_can_perform(action, n),
    ensures
        p.spec_apply(action, n).0 >= 0,
        p.spec_apply(action, n).1 >= 0,
{
}

/// Applying a transaction moves the client's total points by exactly
/// the transaction's delta: an Add adds, a Consume removes, a Lock or
/// Free leaves the total untouched.
pub proof fn lemma_apply_conserves_total(p: Points, action: TransactionAction, n: usize)
    requires
        p.spec_can_perform(action, n),
    ensures
        p.spec_apply(action, n).0 + p.spec_apply(action, n).1 == p.0 + p.1 + tx_delta(action, n),
{
}

/// One client's record: the point pair, and the transaction now
/// arbitrating the record, if any.
#[derive(Debug)]
pub struct PointRecord {
    pub points: Points,
    /// Set while a transaction holds the record through its prepare
    /// window; wait-die arbitration reads it.  Never sent to peers.
    pub transaction: Option<Transaction>,
}

impl Clone for PointRecord {
    fn clone(&self) -> (r: Self)
        ensures
            r == *self,
    {
        let transaction = match &self.transaction {
            None => None,
            Some(t) => Some(t.clone()),
        };
        PointRecord { points: self.points, transaction }
    }
}

impl PointRecord {
    /// A fresh record: no points, nothing arbitrating.
    pub fn new() -> (r: Self)
        ensures
            r.points.0 == 0,
            r.points.1 == 0,
            r.transaction is None,
    {
        PointRecord { points: Points(0, 0), transaction: None }
    }

    /// Whether the record is free for this transaction: nothing holds
    /// it, or the holder is this very transaction.
    pub open spec fn spec_wait_die_ok(self, t: Transaction) -> bool {
        match self.transaction {
            None => true,
            Some(e) => t.same_identity(e),
        }
    }

    /// Wait-die arbitration: while another transaction holds the
    /// record, an older newcomer waits (it aborts and retries through
    /// the pending queue) and a younger newcomer dies (it aborts).
    /// Either way the newcomer is refused here.
    pub fn wait_die(&self, transaction: &Transaction) -> (r: Result<(), StoreError>)
        ensures
            r is Ok <==> self.spec_wait_die_ok(*transaction),
            r is Err ==> r == Err::<(), StoreError>(StoreError::LockContention),
    {
        match &self.transaction {
            None => Ok(()),
            Some(etx) => {
                proof {
                    if transaction.same_identity(*etx) {
                        lemma_same_identity_not_older(*transaction, *etx);
                    } else {
                        lemma_older_than_total(*transaction, *etx);
                    }
                }
                if transaction.older_than(etx) {
                    // the newcomer is older: it waits
                    Err(StoreError::LockContention)
                } else if etx.older_than(transaction) {
                    // the newcomer is younger: it dies
                    Err(StoreError::LockContention)
                } else {
                    Ok(())
                }
            },
        }
    }

    /// A participant's vote on a transaction: consent exactly when the
    /// record is free for it and it is locally feasible.
    pub open spec fn spec_vote(self, t: Transaction) -> bool {
        self.spec_wait_die_ok(t) && self.points.spec_can_perform(t.action, t.points)
    }
}

/// Wait-die excludes crossing commits: when two records each hold the
/// other's transaction in their prepare window, neither transaction
/// gets a consenting vote — in particular the younger of the two dies
/// rather than committing over the older one.
pub proof fn lemma_wait_die_excludes(ra: PointRecord, rb: PointRecord, ta: Transaction, tb: Transaction)
    requires
        ra.transaction == Some(tb),
        rb.transaction == Some(ta),
        !ta.same_identity(tb),
    ensures
        !ra.spec_vote(ta),
        !rb.spec_vote(tb),
{
}

} // verus!
