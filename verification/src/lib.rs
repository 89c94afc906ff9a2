//! A replicated, transactional loyalty-points store.
//!
//! A cluster of peer servers holds one point record per client and
//! coordinates point-spending orders through a two-phase protocol with
//! wait-die arbitration.  This crate is the verified core of such a
//! server: the wire codecs, the transaction engine's decisions, the
//! point records and their bookkeeping, the pending queue, and the
//! membership and synchronisation state.  All network and thread
//! plumbing lives outside, and talks to this crate in plain values.

use vstd::prelude::*;
use vstd::string::StringExecFns;

pub mod control;
pub mod engine;
pub mod error;
pub mod message;
pub mod order;
pub mod pending;
pub mod pointmap;
pub mod record;
pub mod storage;
pub mod text;
pub mod transaction;
pub mod wire;

verus! {

/// First byte of a connection that carries client order frames.
pub const CLIENT_CONNECTION: u8 = 1;

/// First byte of a connection that carries a server-to-server message.
pub const SERVER_MESSAGE: u8 = 2;

/// First byte of a connection that carries a control message.
pub const CONTROL_MESSAGE: u8 = 3;

/// The address an argument names: one with a colon is taken as it is,
/// a bare port gets the local host prepended.
pub open spec fn spec_parse_addr(s: Seq<char>) -> Seq<char> {
    if s.contains(':') {
        s
    } else {
        "localhost:"@ + s
    }
}

/// Completes an address argument: a bare port becomes an address on
/// the local host.
pub fn parse_addr(addr_or_port: String) -> (r: String)
    ensures
        r@ == spec_parse_addr(addr_or_port@),
{
    let v = text::chars_vec(addr_or_port.as_str());
    let i = text::find_char(&v, 0, ':');
    proof {
        assert(v@.skip(0) =~= v@);
    }
    if i < v.len() {
        proof {
            assert(addr_or_port@[i as int] == ':');
            assert(addr_or_port@.contains(':'));
        }
        addr_or_port
    } else {
        proof {
            assert(!addr_or_port@.contains(':'));
        }
        let mut r = "localhost:".to_owned();
        r.append(addr_or_port.as_str());
        r
    }
}

} // verus!
