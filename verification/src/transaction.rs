//! Transactions: the server-side unit of coordination.  A transaction
//! carries its coordinator's address and a millisecond timestamp; the
//! pair orders transactions totally for wait-die arbitration.

use vstd::prelude::*;

use crate::message::Message;
use crate::order::OrderAction;
use crate::text::{lex_lt, str_lt};
use std::time::{SystemTime, UNIX_EPOCH};

verus! {

/// How long a coordinator waits for one prepare vote, in milliseconds.
pub const PREPARE_TIMEOUT_MS: u64 = 1000;

/// How long a participant waits for the commit byte, in milliseconds.
pub const COMMIT_TIMEOUT_MS: u64 = 3000;

/// A peer's vote or the coordinator's decision on a transaction.
#[derive(Debug, Clone, Copy, PartialEq, Eq, Structural)]
pub enum TransactionState {
    /// The peer can apply the transaction, or the coordinator commits it.
    Proceed,
    /// The peer refuses the transaction, or the coordinator aborts it.
    Abort,
    /// The peer did not answer within the prepare timeout.
    Timeout,
    /// No peer answered at all: the cluster is unreachable.
    Disconnected,
}

/// What a committed transaction does to a point record.
#[derive(Debug, Clone, Copy, PartialEq, Eq, Structural)]
pub enum TransactionAction {
    Add,
    Lock,
    Free,
    Consume,
}

/// How a coordinated transaction ended: applied everywhere, or parked
/// in the pending queue for a later retry.
#[derive(Debug, Clone, Copy, PartialEq, Eq, Structural)]
pub enum TxOk {
    Finalized,
    Pending,
}

/// The server-side unit of coordination.
#[derive(Debug)]
pub struct Transaction {
    /// Address of the server that coordinates this transaction.
    pub coordinator: String,
    /// Milliseconds since the Unix epoch when the transaction was built.
    pub timestamp: u128,
    pub client_id: u16,
    pub action: TransactionAction,
    pub points: usize,
}

impl Clone for Transaction {
    fn clone(&self) -> (r: Self)
        ensures
            r == *self,
    {
        Transaction {
            coordinator: self.coordinator.clone(),
            timestamp: self.timestamp,
            client_id: self.client_id,
            action: self.action,
            points: self.points,
        }
    }
}

/// Milliseconds since the Unix epoch, by the machine's clock.
///
/// Relies on std::time::SystemTime for the current time.  Nothing is
/// promised of the value: the clock is the machine's, two reads may
/// return any two values, and a clock before the epoch reads as zero.
#[verifier::external_body]
pub(crate) fn generate_timestamp() -> u128 {
    SystemTime::now().duration_since(UNIX_EPOCH).map(|d| d.as_millis()).unwrap_or(0)
}

impl Transaction {
    /// The transaction action a client message asks for, if any.  The
    /// Lock and Free stages of a FILL order need no transaction: they
    /// are pure client bookkeeping.
    pub open spec fn spec_action_of(msg: Message) -> Option<TransactionAction> {
        match msg {
            Message::LockOrder(o) => match o.action {
                OrderAction::FillPoints(_) => None,
                OrderAction::UsePoints(_) => Some(TransactionAction::Lock),
            },
            Message::FreeOrder(o) => match o.action {
                OrderAction::FillPoints(_) => None,
                OrderAction::UsePoints(_) => Some(TransactionAction::Free),
            },
            Message::CommitOrder(o) => match o.action {
                OrderAction::FillPoints(_) => Some(TransactionAction::Add),
                OrderAction::UsePoints(_) => Some(TransactionAction::Consume),
            },
        }
    }

    /// Builds the transaction for a client message, timestamped now,
    /// with the given coordinator as origin.  Only the timestamp is left
    /// open: it comes from the machine's clock.
    pub fn new(coordinator: String, msg: &Message) -> (r: Result<Transaction, String>)
        ensures
            r is Ok <==> Self::spec_action_of(*msg) is Some,
            r matches Ok(t) ==> {
                &&& t.coordinator == coordinator
                &&& t.client_id == msg.spec_order().client_id
                &&& t.points == msg.spec_order().action.spec_points()
                &&& Self::spec_action_of(*msg) == Some(t.action)
            },
    {
        let err = "Invalid message for transaction";

        let action = match msg {
            Message::LockOrder(order) => match order.action {
                OrderAction::FillPoints(_) => { return Err(err.to_owned()); },
                OrderAction::UsePoints(_) => TransactionAction::Lock,
            },
            Message::FreeOrder(order) => match order.action {
                OrderAction::FillPoints(_) => { return Err(err.to_owned()); },
                OrderAction::UsePoints(_) => TransactionAction::Free,
            },
            Message::CommitOrder(order) => match order.action {
                OrderAction::FillPoints(_) => TransactionAction::Add,
                OrderAction::UsePoints(_) => TransactionAction::Consume,
            },
        };

        let order = msg.order();
        let client_id = order.client_id;
        let points = order.action.points();

        let timestamp = generate_timestamp();

        Ok(Transaction { coordinator, timestamp, client_id, action, points })
    }

    /// Strict total order on transactions: by timestamp, ties broken by
    /// the lexicographically lower coordinator address being older.
    pub open spec fn spec_older_than(self, other: Transaction) -> bool {
        if self.timestamp == other.timestamp {
            lex_lt(self.coordinator@, other.coordinator@)
        } else {
            self.timestamp < other.timestamp
        }
    }

    /// Whether this transaction is older than the other one.
    pub fn older_than(&self, other: &Transaction) -> (r: bool)
        ensures
            r == self.spec_older_than(*other),
    {
        if self.timestamp == other.timestamp {
            str_lt(self.coordinator.as_str(), other.coordinator.as_str())
        } else {
            self.timestamp < other.timestamp
        }
    }

    /// Two transactions with the same timestamp and coordinator are the
    /// same for ordering purposes.
    pub open spec fn same_identity(self, other: Transaction) -> bool {
        self.timestamp == other.timestamp && self.coordinator@ == other.coordinator@
    }
}

/// Lexicographic order is a strict total order: two sequences are
/// equal, or exactly one comes first.
proof fn lemma_lex_total(a: Seq<char>, b: Seq<char>)
    ensures
        a =~= b || lex_lt(a, b) || lex_lt(b, a),
        !(lex_lt(a, b) && lex_lt(b, a)),
    decreases a.len() + b.len(),
{
    if a.len() == 0 || b.len() == 0 {
    } else if a[0] == b[0] {
        lemma_lex_total(a.drop_first(), b.drop_first());
        if a.drop_first() =~= b.drop_first() {
            assert forall|i: int| 0 <= i < a.len() implies a[i] == b[i] by {
                if i > 0 {
                    assert(a.drop_first()[i - 1] == b.drop_first()[i - 1]);
                }
            }
            assert(a =~= b);
        }
    } else {
        vstd::utf8::char_u32_cast(a[0], a[0] as u32);
        vstd::utf8::char_u32_cast(b[0], b[0] as u32);
        assert((a[0] as u32) != (b[0] as u32));
    }
}

/// A transaction is never older than one with its own identity: the
/// order is strict.
pub proof fn lemma_same_identity_not_older(a: Transaction, b: Transaction)
    requires
        a.same_identity(b),
    ensures
        !a.spec_older_than(b),
        !b.spec_older_than(a),
{
    lemma_lex_total(a.coordinator@, b.coordinator@);
    lemma_lex_total(b.coordinator@, a.coordinator@);
}

/// Distinct transactions are strictly ordered: exactly one of the two
/// is the older.
pub proof fn lemma_older_than_total(a: Transaction, b: Transaction)
    requires
        !a.same_identity(b),
    ensures
        a.spec_older_than(b) <==> !b.spec_older_than(a),
{
    if a.timestamp == b.timestamp {
        lemma_lex_total(a.coordinator@, b.coordinator@);
    }
}

/// The byte a vote or decision travels as: 1 proceeds, 2 aborts.  The
/// other states never travel: a timeout is the absence of a byte, and
/// isolation is a local observation.
pub fn state_to_byte(state: TransactionState) -> (r: u8)
    ensures
        state == TransactionState::Proceed ==> r == 1,
        state == TransactionState::Abort ==> r == 2,
        state == TransactionState::Timeout ==> r == 0,
        state == TransactionState::Disconnected ==> r == 3,
{
    match state {
        TransactionState::Proceed => 1,
        TransactionState::Abort => 2,
        TransactionState::Timeout => 0,
        TransactionState::Disconnected => 3,
    }
}

/// The vote a received byte stands for: only the proceed byte consents,
/// anything else refuses.
pub fn state_from_byte(byte: u8) -> (r: TransactionState)
    ensures
        byte == 1 ==> r == TransactionState::Proceed,
        byte != 1 ==> r == TransactionState::Abort,
{
    if byte == 1 {
        TransactionState::Proceed
    } else {
        TransactionState::Abort
    }
}

/// How many entries of the sequence equal the given state.
pub open spec fn count_state(s: Seq<TransactionState>, which: TransactionState) -> int
    decreases s.len(),
{
    if s.len() == 0 {
        0
    } else {
        count_state(s.drop_last(), which) + if s.last() == which { 1int } else { 0int }
    }
}

/// Counts the proceed and abort votes among the peers' answers.
/// Timeouts and unreachable peers are non-votes and count as neither.
pub fn count_votes(votes: &Vec<TransactionState>) -> (r: (usize, usize))
    ensures
        r.0 == count_state(votes@, TransactionState::Proceed),
        r.1 == count_state(votes@, TransactionState::Abort),
{
    let mut proceed: usize = 0;
    let mut abort: usize = 0;
    let mut i: usize = 0;
    while i < votes.len()
        invariant
            i <= votes@.len(),
            proceed == count_state(votes@.take(i as int), TransactionState::Proceed),
            abort == count_state(votes@.take(i as int), TransactionState::Abort),
            proceed <= i,
            abort <= i,
        decreases votes@.len() - i,
    {
        proof {
            assert(votes@.take(i + 1 as int).drop_last() =~= votes@.take(i as int));
        }
        match votes[i] {
            TransactionState::Proceed => { proceed = proceed + 1; },
            TransactionState::Abort => { abort = abort + 1; },
            _ => {},
        }
        i = i + 1;
    }
    proof {
        assert(votes@.take(votes@.len() as int) =~= votes@);
    }
    (proceed, abort)
}

/// The coordinator's decision rule over the counted votes.  With no
/// votes at all the cluster is unreachable; otherwise the transaction
/// aborts if and only if any peer refused or fewer than half of the
/// peers consented.
pub fn decide(proceed: usize, abort: usize, peers: usize) -> (r: TransactionState)
    ensures
        proceed == 0 && abort == 0 ==> r == TransactionState::Disconnected,
        proceed + abort > 0 && (abort > 0 || proceed < peers / 2) ==> r == TransactionState::Abort,
        proceed + abort > 0 && abort == 0 && proceed >= peers / 2 ==> r == TransactionState::Proceed,
{
    if proceed == 0 && abort == 0 {
        TransactionState::Disconnected
    } else if abort > 0 || proceed < peers / 2 {
        TransactionState::Abort
    } else {
        TransactionState::Proceed
    }
}

} // verus!
