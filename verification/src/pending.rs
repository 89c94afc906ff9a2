//! The pending queue: the local backlog of transactions that could not
//! be coordinated while the peer set was unreachable.  First in, first
//! out; the consumer makes no progress while the cluster looks
//! unreachable.

use vstd::prelude::*;

use crate::error::StoreError;
use crate::transaction::Transaction;

verus! {

/// The backlog of transactions awaiting a reachable peer set.
#[derive(Debug)]
pub struct PendingTransactions {
    transactions: Vec<Transaction>,
    connected: bool,
}

impl PendingTransactions {
    /// The queued transactions, oldest first.
    pub closed spec fn txs(self) -> Seq<Transaction> {
        self.transactions@
    }

    /// Whether the cluster looks reachable; while it does not, the
    /// consumer is stalled.
    pub closed spec fn spec_connected(self) -> bool {
        self.connected
    }

    /// A fresh queue: empty, and assumed connected.
    pub fn new() -> (r: Self)
        ensures
            r.txs() == Seq::<Transaction>::empty(),
            r.spec_connected(),
    {
        PendingTransactions { transactions: Vec::new(), connected: true }
    }

    pub fn len(&self) -> (r: usize)
        ensures
            r == self.txs().len(),
    {
        self.transactions.len()
    }

    pub fn is_connected(&self) -> (r: bool)
        ensures
            r == self.spec_connected(),
    {
        self.connected
    }

    /// Appends a transaction to the backlog.  Always succeeds.
    pub fn add(&mut self, transaction: Transaction) -> (r: Result<(), StoreError>)
        ensures
            r is Ok,
            final(self).txs() == old(self).txs().push(transaction),
            final(self).spec_connected() == old(self).spec_connected(),
    {
        self.transactions.push(transaction);
        Ok(())
    }

    /// Takes the oldest queued transaction — but only while the cluster
    /// looks reachable: a disconnected queue hands nothing out, so its
    /// consumer makes no progress until reconnection.
    pub fn pop(&mut self) -> (r: Option<Transaction>)
        ensures
            old(self).spec_connected() && old(self).txs().len() > 0 ==> {
                &&& r == Some(old(self).txs()[0])
                &&& final(self).txs() == old(self).txs().drop_first()
            },
            !(old(self).spec_connected() && old(self).txs().len() > 0) ==> {
                &&& r is None
                &&& final(self).txs() == old(self).txs()
            },
            final(self).spec_connected() == old(self).spec_connected(),
    {
        if self.connected && self.transactions.len() > 0 {
            let t = self.transactions.remove(0);
            proof {
                assert(self.transactions@ =~= old(self).transactions@.drop_first());
            }
            Some(t)
        } else {
            None
        }
    }

    /// Marks the cluster unreachable.  The backlog is kept; repeating
    /// the call changes nothing further.
    pub fn disconnect(&mut self)
        ensures
            final(self).txs() == old(self).txs(),
            !final(self).spec_connected(),
    {
        self.connected = false;
    }

    /// Marks the cluster reachable again.  The backlog is kept.  Returns
    /// whether this is a fresh reconnection: the owner then
    /// re-synchronises its state from a peer, once per transition.
    pub fn connect(&mut self) -> (resync: bool)
        ensures
            final(self).txs() == old(self).txs(),
            final(self).spec_connected(),
            resync == !old(self).spec_connected(),
    {
        let resync = !self.connected;
        self.connected = true;
        resync
    }
}

} // verus!
