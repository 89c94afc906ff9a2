//! The error kinds the store produces.

use vstd::prelude::*;

verus! {

/// Why an operation of the store was refused.
#[derive(Debug, Clone, Copy, PartialEq, Eq, Structural)]
pub enum StoreError {
    /// Malformed bytes on a client connection.
    InvalidFrame,
    /// A client message that no transaction action corresponds to.
    InvalidMessage,
    /// A Lock asked for more points than the client has available.
    LockInsufficient,
    /// A Free or Consume asked for more points than the client has locked.
    LockedInsufficient,
    /// The record is held by another in-flight transaction (wait-die).
    LockContention,
    /// A peer refused the transaction during the prepare phase.
    TransactionAborted,
    /// No peer was reachable at all.
    ClusterIsolated,
    /// This server is administratively offline.
    Offline,
}

} // verus!
