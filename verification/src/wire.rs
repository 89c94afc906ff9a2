//! The server-to-server envelope: frame kind, sub-type, an eight-byte
//! big-endian length, then the body.

use vstd::prelude::*;

use crate::SERVER_MESSAGE;

verus! {

/// Sub-type of a server-to-server message.
pub const CONNECT: u8 = 1;

/// Sub-type of a synchronisation request.
pub const SYNC: u8 = 2;

/// Sub-type of a transaction prepare.
pub const TRANSACTION: u8 = 3;

/// Sub-type of a liveness ping.
pub const PING: u8 = 4;

/// What the first byte of a connection announces.
#[derive(Debug, Clone, Copy, PartialEq, Eq, Structural)]
pub enum FrameKind {
    /// A client pipelining seven-byte order frames.
    ClientConnection,
    /// A peer server's enveloped message.
    ServerMessage,
    /// An administrative control byte.
    ControlMessage,
}

/// What a connection's first byte stands for; anything else is an
/// unknown frame and the connection is dropped.
pub fn frame_kind(byte: u8) -> (r: Option<FrameKind>)
    ensures
        byte == 1 ==> r == Some(FrameKind::ClientConnection),
        byte == 2 ==> r == Some(FrameKind::ServerMessage),
        byte == 3 ==> r == Some(FrameKind::ControlMessage),
        byte != 1 && byte != 2 && byte != 3 ==> r is None,
{
    match byte {
        1 => Some(FrameKind::ClientConnection),
        2 => Some(FrameKind::ServerMessage),
        3 => Some(FrameKind::ControlMessage),
        _ => None,
    }
}

/// The kind of a server-to-server message.
#[derive(Debug, Clone, Copy, PartialEq, Eq, Structural)]
pub enum ServerMessageKind {
    Connect,
    Sync,
    Transaction,
    Ping,
}

/// What a sub-type byte stands for; anything else is unknown and the
/// message is refused.
pub fn server_message_kind(byte: u8) -> (r: Option<ServerMessageKind>)
    ensures
        byte == CONNECT ==> r == Some(ServerMessageKind::Connect),
        byte == SYNC ==> r == Some(ServerMessageKind::Sync),
        byte == TRANSACTION ==> r == Some(ServerMessageKind::Transaction),
        byte == PING ==> r == Some(ServerMessageKind::Ping),
        byte != CONNECT && byte != SYNC && byte != TRANSACTION && byte != PING ==> r is None,
{
    match byte {
        1 => Some(ServerMessageKind::Connect),
        2 => Some(ServerMessageKind::Sync),
        3 => Some(ServerMessageKind::Transaction),
        4 => Some(ServerMessageKind::Ping),
        _ => None,
    }
}

/// The number a big-endian byte sequence stands for, most significant
/// byte first.
pub open spec fn be_value(s: Seq<u8>) -> nat
    decreases s.len(),
{
    if s.len() == 0 {
        0
    } else {
        (be_value(s.drop_last()) * 256 + s.last()) as nat
    }
}

/// 256 to the given power: the count of values that many bytes carry.
pub open spec fn pow256(n: nat) -> nat
    decreases n,
{
    if n == 0 {
        1
    } else {
        256 * pow256((n - 1) as nat)
    }
}

/// A byte sequence's value fits in its width.
proof fn lemma_be_value_bound(s: Seq<u8>)
    ensures
        be_value(s) < pow256(s.len() as nat),
    decreases s.len(),
{
    if s.len() > 0 {
        lemma_be_value_bound(s.drop_last());
    }
}

/// The big-endian bytes of a number, in the given width; the number is
/// taken modulo what the width can carry.
pub open spec fn be_bytes(v: nat, n: nat) -> Seq<u8>
    decreases n,
{
    if n == 0 {
        Seq::empty()
    } else {
        be_bytes(v / 256, (n - 1) as nat).push((v % 256) as u8)
    }
}

/// Writing a number that fits and reading it back is the identity.
pub proof fn lemma_be_round_trip(v: nat, n: nat)
    requires
        v < pow256(n),
    ensures
        be_value(be_bytes(v, n)) == v,
    decreases n,
{
    if n > 0 {
        assert(v / 256 < pow256((n - 1) as nat)) by (nonlinear_arith)
            requires v < pow256(n), pow256(n) == 256 * pow256((n - 1) as nat);
        lemma_be_round_trip(v / 256, (n - 1) as nat);
        let s = be_bytes(v, n);
        assert(s.drop_last() =~= be_bytes(v / 256, (n - 1) as nat));
        assert(s.last() == (v % 256) as u8);
    } else {
        assert(pow256(0) == 1);
    }
}

/// Reads a 64-bit number from the first eight bytes of a buffer,
/// most significant byte first.
pub fn be_byte_buffer_to_u64(buffer: &[u8]) -> (r: u64)
    requires
        buffer@.len() >= 8,
    ensures
        r == be_value(buffer@.subrange(0, 8)),
{
    proof {
        assert(pow256(0) == 1);
        assert(pow256(1) == 256);
        assert(pow256(2) == 0x10000);
        assert(pow256(3) == 0x1000000);
        assert(pow256(4) == 0x100000000);
        assert(pow256(5) == 0x10000000000);
        assert(pow256(6) == 0x1000000000000);
        assert(pow256(7) == 0x100000000000000);
        assert(pow256(8) == 0x10000000000000000);
    }
    let mut r: u64 = 0;
    let mut i: usize = 0;
    proof {
        assert(buffer@.subrange(0, 0) =~= Seq::<u8>::empty());
    }
    while i < 8
        invariant
            i <= 8,
            buffer@.len() >= 8,
            r == be_value(buffer@.subrange(0, i as int)),
            pow256(8) == 0x10000000000000000,
            r < pow256(i as nat),
        decreases 8 - i,
    {
        proof {
            lemma_be_value_bound(buffer@.subrange(0, i as int));
            assert(buffer@.subrange(0, i + 1 as int).drop_last() =~= buffer@.subrange(0, i as int));
            assert(buffer@.subrange(0, i + 1 as int).last() == buffer@[i as int]);
            assert(pow256((i + 1) as nat) == 256 * pow256(i as nat));
            assert(r * 256 + 255 < pow256((i + 1) as nat)) by (nonlinear_arith)
                requires r < pow256(i as nat), pow256((i + 1) as nat) == 256 * pow256(i as nat);
            assert(pow256((i + 1) as nat) <= pow256(8)) by {
                lemma_pow256_monotone((i + 1) as nat, 8);
            }
        }
        r = r * 256 + (buffer[i] as u64);
        i = i + 1;
    }
    r
}

/// Wider byte sequences carry at least as many values.
proof fn lemma_pow256_monotone(a: nat, b: nat)
    requires
        a <= b,
    ensures
        pow256(a) <= pow256(b),
    decreases b,
{
    if a < b {
        lemma_pow256_monotone(a, (b - 1) as nat);
        assert(pow256(b) == 256 * pow256((b - 1) as nat));
        assert(pow256((b - 1) as nat) <= 256 * pow256((b - 1) as nat)) by (nonlinear_arith)
            requires pow256((b - 1) as nat) >= 0;
    }
}

/// The big-endian bytes of a 64-bit number, in the given width.
fn u64_be_bytes(v: u64, n: usize) -> (r: Vec<u8>)
    ensures
        r@ == be_bytes(v as nat, n as nat),
        r@.len() == n,
    decreases n,
{
    if n == 0 {
        Vec::new()
    } else {
        let mut r = u64_be_bytes(v / 256, n - 1);
        r.push((v % 256) as u8);
        r
    }
}

/// The enveloped form of a server-to-server message: the server frame
/// byte, the sub-type, eight big-endian bytes of body length, then the
/// body itself.
pub fn build_envelope(subtype: u8, body: &Vec<u8>) -> (r: Vec<u8>)
    requires
        body@.len() <= u64::MAX,
    ensures
        r@ == seq![SERVER_MESSAGE, subtype] + be_bytes(body@.len() as nat, 8) + body@,
{
    let mut r = vec![SERVER_MESSAGE, subtype];
    let mut len_bytes = u64_be_bytes(body.len() as u64, 8);
    r.append(&mut len_bytes);
    let mut i: usize = 0;
    while i < body.len()
        invariant
            i <= body@.len(),
            r@ =~= seq![SERVER_MESSAGE, subtype] + be_bytes(body@.len() as nat, 8)
                + body@.take(i as int),
        decreases body@.len() - i,
    {
        r.push(body[i]);
        proof {
            assert(r@ =~= seq![SERVER_MESSAGE, subtype] + be_bytes(body@.len() as nat, 8)
                + body@.take(i + 1 as int));
        }
        i = i + 1;
    }
    proof {
        assert(body@.take(body@.len() as int) =~= body@);
    }
    r
}

} // verus!
