//! The transaction engine: the two-phase coordination of a transaction
//! across peers, and the participant's side of it.  The engine makes
//! every decision; sending prepares, reading votes and writing the
//! decision byte are the caller's plumbing, handed in as plain values.

use vstd::prelude::*;

use crate::error::StoreError;
use crate::message::Message;
use crate::pointmap::{lookup, points_of, sum_total};
use crate::record::{tx_delta, PointRecord, Points};
use crate::storage::{addr_views, others_of, PointStorage};
use crate::transaction::{Transaction, TransactionAction, TransactionState, TxOk};
use vstd::pervasive::unreached;

verus! {

/// What the coordinator does after the local pre-check.
#[derive(Debug)]
pub enum CoordinationStart {
    /// Settled locally, nothing to send.
    Done(TxOk),
    /// Send a prepare for this transaction to each of these peers,
    /// count the votes, decide, and finish the coordination.
    Prepare(Transaction, Vec<String>),
}

/// Whether the client's record is free for the transaction under
/// wait-die arbitration.
pub open spec fn record_free(s: Seq<(u16, PointRecord)>, t: Transaction) -> bool {
    match lookup(s, t.client_id) {
        None => true,
        Some(rec) => rec.spec_wait_die_ok(t),
    }
}

/// Membership and the online flag are untouched.
pub open spec fn same_membership(a: PointStorage, b: PointStorage) -> bool {
    &&& b.servers == a.servers
    &&& b.self_address == a.self_address
    &&& b.online == a.online
}

/// The pending queue is untouched.
pub open spec fn same_pending(a: PointStorage, b: PointStorage) -> bool {
    &&& b.pending.txs() == a.pending.txs()
    &&& b.pending.spec_connected() == a.pending.spec_connected()
}

/// The maps agree, except that the client's record now shows the
/// transaction applied and no arbitration pointer.
pub open spec fn applied_at(
    pre: Seq<(u16, PointRecord)>,
    post: Seq<(u16, PointRecord)>,
    t: Transaction,
) -> bool {
    let p = points_of(pre, t.client_id);
    &&& lookup(post, t.client_id) matches Some(rec)
        && rec.points.0 == p.spec_apply(t.action, t.points).0
        && rec.points.1 == p.spec_apply(t.action, t.points).1
        && rec.transaction is None
    &&& forall|o: u16| o != t.client_id ==> lookup(post, o) == lookup(pre, o)
    &&& sum_total(post) == sum_total(pre) + tx_delta(t.action, t.points)
}

/// The maps agree, except that the client's record now holds the
/// transaction through its prepare window.
pub open spec fn holds_record(
    pre: Seq<(u16, PointRecord)>,
    post: Seq<(u16, PointRecord)>,
    t: Transaction,
) -> bool {
    &&& lookup(post, t.client_id) matches Some(rec)
        && rec.points == points_of(pre, t.client_id)
        && rec.transaction == Some(t)
    &&& forall|o: u16| o != t.client_id ==> lookup(post, o) == lookup(pre, o)
    &&& sum_total(post) == sum_total(pre)
}

/// The maps agree, except that the client's record holds its points
/// with the arbitration pointer cleared.
pub open spec fn released_at(
    pre: Seq<(u16, PointRecord)>,
    post: Seq<(u16, PointRecord)>,
    t: Transaction,
) -> bool {
    &&& lookup(post, t.client_id) matches Some(rec)
        && rec.points == points_of(pre, t.client_id)
        && rec.transaction is None
    &&& forall|o: u16| o != t.client_id ==> lookup(post, o) == lookup(pre, o)
    &&& sum_total(post) == sum_total(pre)
}

/// Exactly what one coordination pre-check does with the storage: the
/// relation between the state before, the transaction, the state after
/// and the result.
///
/// In order: a record held by another transaction refuses the newcomer
/// (a Lock dies to the client, the rest retries through the pending
/// queue); an infeasible transaction is refused; with no peers it is
/// applied on the spot; offline, the queue is marked disconnected and
/// the transaction parks or dies; otherwise the record is held and the
/// prepare fan-out is handed back.
pub open spec fn coordinate_step(
    pre: PointStorage,
    t: Transaction,
    post: PointStorage,
    r: Result<CoordinationStart, StoreError>,
) -> bool {
    let p = points_of(pre.points@, t.client_id);
    let peers = others_of(addr_views(pre.servers@), pre.self_address@);
    &&& same_membership(pre, post)
    &&& if !record_free(pre.points@, t) {
        &&& post.points@ == pre.points@
        &&& if t.action is Lock {
            &&& r == Err::<CoordinationStart, StoreError>(StoreError::LockContention)
            &&& same_pending(pre, post)
        } else {
            &&& r matches Ok(CoordinationStart::Done(TxOk::Pending))
            &&& post.pending.txs() == pre.pending.txs().push(t)
            &&& post.pending.spec_connected() == pre.pending.spec_connected()
        }
    } else if !p.spec_can_perform(t.action, t.points) {
        &&& post.points@ == pre.points@
        &&& same_pending(pre, post)
        &&& if t.action is Lock {
            r == Err::<CoordinationStart, StoreError>(StoreError::LockInsufficient)
        } else {
            r == Err::<CoordinationStart, StoreError>(StoreError::LockedInsufficient)
        }
    } else if peers.len() == 0 {
        &&& r matches Ok(CoordinationStart::Done(TxOk::Finalized))
        &&& applied_at(pre.points@, post.points@, t)
        &&& same_pending(pre, post)
    } else if !pre.online {
        &&& post.points@ == pre.points@
        &&& !post.pending.spec_connected()
        &&& if t.action is Lock {
            &&& r == Err::<CoordinationStart, StoreError>(StoreError::ClusterIsolated)
            &&& post.pending.txs() == pre.pending.txs()
        } else {
            &&& r matches Ok(CoordinationStart::Done(TxOk::Pending))
            &&& post.pending.txs() == pre.pending.txs().push(t)
        }
    } else {
        &&& r matches Ok(CoordinationStart::Prepare(pt, ps)) && pt == t
            && addr_views(ps@) == peers
        &&& holds_record(pre.points@, post.points@, t)
        &&& same_pending(pre, post)
    }
}

/// Exactly what settling a decision does with the storage.  A commit
/// applies and reports success; an abort surfaces a Lock to the client
/// and parks anything else in the pending queue; an isolated decision
/// does the same but marks the queue disconnected.  The flag says
/// whether the queue just reconnected, on which the caller
/// re-synchronises from a peer.
pub open spec fn finish_step(
    pre: PointStorage,
    t: Transaction,
    state: TransactionState,
    post: PointStorage,
    r: Result<TxOk, StoreError>,
    resync: bool,
) -> bool {
    &&& same_membership(pre, post)
    &&& match state {
        TransactionState::Proceed => {
            &&& r == Ok::<TxOk, StoreError>(TxOk::Finalized)
            &&& applied_at(pre.points@, post.points@, t)
            &&& post.pending.spec_connected()
            &&& post.pending.txs() == pre.pending.txs()
            &&& resync == !pre.pending.spec_connected()
        },
        TransactionState::Abort => {
            &&& released_at(pre.points@, post.points@, t)
            &&& post.pending.spec_connected()
            &&& resync == !pre.pending.spec_connected()
            &&& if t.action is Lock {
                &&& r == Err::<TxOk, StoreError>(StoreError::TransactionAborted)
                &&& post.pending.txs() == pre.pending.txs()
            } else {
                &&& r == Ok::<TxOk, StoreError>(TxOk::Pending)
                &&& post.pending.txs() == pre.pending.txs().push(t)
            }
        },
        TransactionState::Disconnected => {
            &&& released_at(pre.points@, post.points@, t)
            &&& !post.pending.spec_connected()
            &&& !resync
            &&& if t.action is Lock {
                &&& r == Err::<TxOk, StoreError>(StoreError::ClusterIsolated)
                &&& post.pending.txs() == pre.pending.txs()
            } else {
                &&& r == Ok::<TxOk, StoreError>(TxOk::Pending)
                &&& post.pending.txs() == pre.pending.txs().push(t)
            }
        },
        TransactionState::Timeout => false,
    }
}

impl PointStorage {
    /// The coordinator's pre-check for a transaction already built —
    /// the entry point for pending-queue retries, which keep their
    /// first timestamp so wait-die ordering stays stable.
    pub fn coordinate_tx(&mut self, transaction: Transaction) -> (r: Result<
        CoordinationStart,
        StoreError,
    >)
        requires
            old(self).wf(),
            points_of(old(self).points@, transaction.client_id)
                .spec_fits(transaction.action, transaction.points),
        ensures
            final(self).wf(),
            coordinate_step(*old(self), transaction, *final(self), r),
    {
        let ghost t = transaction;
        let rec_opt = self.points.get(transaction.client_id);

        let free = match &rec_opt {
            None => true,
            Some(rec) => rec.wait_die(&transaction).is_ok(),
        };
        if !free {
            match transaction.action {
                TransactionAction::Lock => {
                    return Err(StoreError::LockContention);
                },
                _ => {
                    let _ = self.pending.add(transaction);
                    return Ok(CoordinationStart::Done(TxOk::Pending));
                },
            }
        }

        let p = match &rec_opt {
            None => Points(0, 0),
            Some(rec) => rec.points,
        };
        match p.can_perform(&transaction) {
            Err(e) => {
                return Err(e);
            },
            Ok(()) => {},
        }

        let others = self.get_other_servers();
        if others.len() == 0 {
            self.points.apply_tx(&transaction);
            self.points.set_record_transaction(transaction.client_id, None);
            return Ok(CoordinationStart::Done(TxOk::Finalized));
        }

        if !self.online {
            self.pending.disconnect();
            match transaction.action {
                TransactionAction::Lock => {
                    return Err(StoreError::ClusterIsolated);
                },
                _ => {
                    let _ = self.pending.add(transaction);
                    return Ok(CoordinationStart::Done(TxOk::Pending));
                },
            }
        }

        self.points.set_record_transaction(transaction.client_id, Some(transaction.clone()));
        Ok(CoordinationStart::Prepare(transaction, others))
    }

    /// The client path's entry point: builds the transaction for the
    /// message — timestamped by the machine's clock — and runs the
    /// coordinator's pre-check.  Refused outright while offline.
    pub fn coordinate_msg(&mut self, msg: &Message) -> (r: Result<CoordinationStart, StoreError>)
        requires
            old(self).wf(),
            Transaction::spec_action_of(*msg) matches Some(a) ==>
                points_of(old(self).points@, msg.spec_order().client_id)
                    .spec_fits(a, msg.spec_order().action.spec_points()),
        ensures
            final(self).wf(),
            !old(self).online ==> r == Err::<CoordinationStart, StoreError>(StoreError::Offline)
                && *final(self) == *old(self),
            old(self).online && Transaction::spec_action_of(*msg) is None ==>
                r == Err::<CoordinationStart, StoreError>(StoreError::InvalidMessage)
                && *final(self) == *old(self),
            old(self).online && Transaction::spec_action_of(*msg) is Some ==>
                exists|t: Transaction| {
                    &&& t.coordinator == old(self).self_address
                    &&& t.client_id == msg.spec_order().client_id
                    &&& Transaction::spec_action_of(*msg) == Some(t.action)
                    &&& t.points == msg.spec_order().action.spec_points()
                    &&& #[trigger] coordinate_step(*old(self), t, *final(self), r)
                },
    {
        if !self.online {
            return Err(StoreError::Offline);
        }
        let transaction = match Transaction::new(self.self_address.clone(), msg) {
            Err(_) => {
                return Err(StoreError::InvalidMessage);
            },
            Ok(t) => t,
        };
        let ghost gt = transaction;
        let r = self.coordinate_tx(transaction);
        proof {
            assert(coordinate_step(*old(self), gt, *self, r));
        }
        r
    }

    /// Settles the coordinator's decision over a transaction whose
    /// prepare fan-out came back with the given state.  The returned
    /// flag says whether the pending queue just reconnected; the caller
    /// then re-synchronises from a peer.
    pub fn finish_coordination(
        &mut self,
        transaction: &Transaction,
        state: TransactionState,
    ) -> (r: (Result<TxOk, StoreError>, bool))
        requires
            old(self).wf(),
            state == TransactionState::Proceed || state == TransactionState::Abort
                || state == TransactionState::Disconnected,
            state == TransactionState::Proceed ==> points_of(
                old(self).points@,
                transaction.client_id,
            ).spec_can_perform(transaction.action, transaction.points)
                && points_of(old(self).points@, transaction.client_id)
                    .spec_fits(transaction.action, transaction.points),
        ensures
            final(self).wf(),
            finish_step(*old(self), *transaction, state, *final(self), r.0, r.1),
    {
        match state {
            TransactionState::Proceed => {
                let resync = self.pending.connect();
                self.points.apply_tx(transaction);
                self.points.set_record_transaction(transaction.client_id, None);
                (Ok(TxOk::Finalized), resync)
            },
            TransactionState::Abort => {
                let resync = self.pending.connect();
                self.points.set_record_transaction(transaction.client_id, None);
                match transaction.action {
                    TransactionAction::Lock => (Err(StoreError::TransactionAborted), resync),
                    _ => {
                        let _ = self.pending.add(transaction.clone());
                        (Ok(TxOk::Pending), resync)
                    },
                }
            },
            TransactionState::Disconnected => {
                self.pending.disconnect();
                self.points.set_record_transaction(transaction.client_id, None);
                match transaction.action {
                    TransactionAction::Lock => (Err(StoreError::ClusterIsolated), false),
                    _ => {
                        let _ = self.pending.add(transaction.clone());
                        (Ok(TxOk::Pending), false)
                    },
                }
            },
            TransactionState::Timeout => unreached(),
        }
    }

    /// The participant's side of a prepare: vote on the transaction.
    /// Consent holds the record through the commit window; a refusal
    /// touches nothing.  Offline, the request is refused outright and
    /// the caller drops the connection without an answer.
    pub fn handle_transaction(&mut self, transaction: &Transaction) -> (r: Result<
        bool,
        StoreError,
    >)
        requires
            old(self).wf(),
        ensures
            final(self).wf(),
            !old(self).online ==> r == Err::<bool, StoreError>(StoreError::Offline)
                && *final(self) == *old(self),
            old(self).online ==> (r matches Ok(vote) && {
                &&& vote == (record_free(old(self).points@, *transaction)
                    && points_of(old(self).points@, transaction.client_id)
                        .spec_can_perform(transaction.action, transaction.points))
                &&& same_membership(*old(self), *final(self))
                &&& same_pending(*old(self), *final(self))
                &&& if vote {
                    holds_record(old(self).points@, final(self).points@, *transaction)
                } else {
                    final(self).points@ == old(self).points@
                }
            }),
    {
        if !self.online {
            return Err(StoreError::Offline);
        }
        let rec_opt = self.points.get(transaction.client_id);
        let free = match &rec_opt {
            None => true,
            Some(rec) => rec.wait_die(transaction).is_ok(),
        };
        let p = match &rec_opt {
            None => Points(0, 0),
            Some(rec) => rec.points,
        };
        let vote = free && p.can_perform(transaction).is_ok();
        if vote {
            self.points.set_record_transaction(transaction.client_id, Some(transaction.clone()));
        }
        Ok(vote)
    }

    /// The participant's side of the commit window: the proceed byte
    /// applies the transaction it voted for; any other byte — or a
    /// window that timed out — discards it without mutation.  Either
    /// way the record is released.
    pub fn commit_transaction(&mut self, transaction: &Transaction, decision: u8) -> (r: Result<
        (),
        StoreError,
    >)
        requires
            old(self).wf(),
            decision == 1 ==> points_of(old(self).points@, transaction.client_id)
                .spec_can_perform(transaction.action, transaction.points)
                && points_of(old(self).points@, transaction.client_id)
                    .spec_fits(transaction.action, transaction.points),
        ensures
            final(self).wf(),
            same_membership(*old(self), *final(self)),
            same_pending(*old(self), *final(self)),
            decision == 1 ==> r is Ok
                && applied_at(old(self).points@, final(self).points@, *transaction),
            decision != 1 ==> r == Err::<(), StoreError>(StoreError::TransactionAborted)
                && released_at(old(self).points@, final(self).points@, *transaction),
    {
        if decision == 1 {
            self.points.apply_tx(transaction);
            self.points.set_record_transaction(transaction.client_id, None);
            Ok(())
        } else {
            self.points.set_record_transaction(transaction.client_id, None);
            Err(StoreError::TransactionAborted)
        }
    }
}

/// Two coordinators whose prepare windows cross on one client never
/// both see consent: each server's record already holds the other
/// coordinator's transaction, so each refuses the newcomer — in
/// particular the younger of the two dies rather than commit over the
/// older.
pub proof fn lemma_crossing_prepares_refused(
    sa: Seq<(u16, PointRecord)>,
    sb: Seq<(u16, PointRecord)>,
    ta: Transaction,
    tb: Transaction,
)
    requires
        lookup(sa, ta.client_id) matches Some(ra) && ra.transaction == Some(tb),
        lookup(sb, tb.client_id) matches Some(rb) && rb.transaction == Some(ta),
        !ta.same_identity(tb),
    ensures
        !record_free(sa, ta),
        !record_free(sb, tb),
{
}

/// A Lock refused at its own server — by wait-die arbitration or for
/// want of available points — is an error and applies nothing: the
/// client sees the failure byte.
pub proof fn lemma_lock_local_refusal(
    pre: PointStorage,
    t: Transaction,
    post: PointStorage,
    r: Result<CoordinationStart, StoreError>,
)
    requires
        coordinate_step(pre, t, post, r),
        t.action is Lock,
        !record_free(pre.points@, t) || !points_of(pre.points@, t.client_id)
            .spec_can_perform(t.action, t.points),
    ensures
        r is Err,
        post.points@ == pre.points@,
{
}

/// In the decision phase, a Lock aborted by any peer — or stranded
/// with the cluster unreachable — is an error, and only a committed
/// Lock succeeds: the client reply byte is 0 for the former and 1 for
/// the latter.
pub proof fn lemma_lock_decision_reply(
    pre: PointStorage,
    t: Transaction,
    state: TransactionState,
    post: PointStorage,
    r: Result<TxOk, StoreError>,
    resync: bool,
)
    requires
        finish_step(pre, t, state, post, r, resync),
        t.action is Lock,
    ensures
        state == TransactionState::Abort || state == TransactionState::Disconnected ==> r is Err,
        state == TransactionState::Proceed ==> r == Ok::<TxOk, StoreError>(TxOk::Finalized),
{
}

} // verus!
