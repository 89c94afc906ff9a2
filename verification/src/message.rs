//! Client messages: the three stages of a client's order flow, and the
//! fixed seven-byte frame that carries one on the wire.

use vstd::prelude::*;

use crate::order::{Order, OrderAction, ORDER_BUFFER_SIZE};

verus! {

/// One stage of a client's order flow: reserve points, release a
/// reservation, or commit the order.
#[derive(Debug, Clone, Copy, PartialEq, Eq, Structural)]
pub enum Message {
    LockOrder(Order),
    FreeOrder(Order),
    CommitOrder(Order),
}

/// Length of a client frame: one message tag, then the order body.
pub const MESSAGE_BUFFER_SIZE: usize = 7;

impl Message {
    /// The order the message is about.
    pub open spec fn spec_order(self) -> Order {
        match self {
            Message::LockOrder(o) => o,
            Message::FreeOrder(o) => o,
            Message::CommitOrder(o) => o,
        }
    }

    pub fn order(&self) -> (r: &Order)
        ensures
            *r == self.spec_order(),
    {
        match self {
            Message::LockOrder(o) => o,
            Message::FreeOrder(o) => o,
            Message::CommitOrder(o) => o,
        }
    }

    /// The message tag byte: 1 Lock, 2 Free, 3 Commit.
    pub open spec fn spec_tag(self) -> u8 {
        match self {
            Message::LockOrder(_) => 1,
            Message::FreeOrder(_) => 2,
            Message::CommitOrder(_) => 3,
        }
    }

    /// A representable message carries a representable order.
    pub open spec fn valid(self) -> bool {
        self.spec_order().valid()
    }

    /// The seven-byte frame: message tag, then the order body.
    pub open spec fn spec_encode(self) -> Seq<u8> {
        seq![self.spec_tag()] + self.spec_order().spec_encode()
    }

    pub fn encode(&self) -> (r: Vec<u8>)
        requires
            self.valid(),
        ensures
            r@ == self.spec_encode(),
            r@.len() == MESSAGE_BUFFER_SIZE,
    {
        let tag: u8 = match self {
            Message::LockOrder(_) => 1,
            Message::FreeOrder(_) => 2,
            Message::CommitOrder(_) => 3,
        };
        let mut r = vec![tag];
        let mut body = self.order().encode();
        r.append(&mut body);
        proof {
            assert(r@ =~= self.spec_encode());
        }
        r
    }

    /// The message a frame stands for.  Anything but exactly seven bytes
    /// with known tags stands for nothing: a short or malformed frame is
    /// dropped before it can touch any state.
    pub open spec fn spec_decode(s: Seq<u8>) -> Option<Message> {
        if s.len() != MESSAGE_BUFFER_SIZE {
            None
        } else {
            match Order::spec_decode(s.subrange(1, MESSAGE_BUFFER_SIZE as int)) {
                None => None,
                Some(order) => {
                    if s[0] == 1 {
                        Some(Message::LockOrder(order))
                    } else if s[0] == 2 {
                        Some(Message::FreeOrder(order))
                    } else if s[0] == 3 {
                        Some(Message::CommitOrder(order))
                    } else {
                        None
                    }
                },
            }
        }
    }

    pub fn decode(bytes: &Vec<u8>) -> (r: Option<Message>)
        ensures
            r == Self::spec_decode(bytes@),
    {
        if bytes.len() != MESSAGE_BUFFER_SIZE {
            return None;
        }
        let mut body: Vec<u8> = Vec::new();
        let mut i: usize = 1;
        while i < MESSAGE_BUFFER_SIZE
            invariant
                1 <= i <= MESSAGE_BUFFER_SIZE,
                bytes@.len() == MESSAGE_BUFFER_SIZE,
                body@ =~= bytes@.subrange(1, i as int),
            decreases MESSAGE_BUFFER_SIZE - i,
        {
            body.push(bytes[i]);
            proof {
                assert(body@ =~= bytes@.subrange(1, i + 1 as int));
            }
            i = i + 1;
        }
        let order = match Order::decode(&body) {
            None => { return None; },
            Some(order) => order,
        };
        if bytes[0] == 1 {
            Some(Message::LockOrder(order))
        } else if bytes[0] == 2 {
            Some(Message::FreeOrder(order))
        } else if bytes[0] == 3 {
            Some(Message::CommitOrder(order))
        } else {
            None
        }
    }

    /// Whether the message is pure client bookkeeping that needs no peer
    /// coordination: the Lock and Free stages of a FILL order succeed
    /// immediately with no side effect.
    pub open spec fn spec_handled_locally(self) -> bool {
        match self {
            Message::LockOrder(o) => o.action is FillPoints,
            Message::FreeOrder(o) => o.action is FillPoints,
            Message::CommitOrder(_) => false,
        }
    }

    /// Handles the Lock and Free stages of a FILL order, which need no
    /// coordination; every other message is refused here and must go
    /// through the transaction engine.
    pub fn handle_locally(&self) -> (r: Result<(), String>)
        ensures
            r is Ok <==> self.spec_handled_locally(),
    {
        let err = "Could not handle message locally";

        let order = match self {
            Message::LockOrder(order) => order,
            Message::FreeOrder(order) => order,
            Message::CommitOrder(_) => { return Err(err.to_owned()); },
        };

        match order.action {
            OrderAction::UsePoints(_) => Err(err.to_owned()),
            OrderAction::FillPoints(_) => Ok(()),
        }
    }
}

/// The one-byte answer on the client socket: 1 when the order stage
/// succeeded, 0 when it failed.
pub fn client_reply_byte(ok: bool) -> (r: u8)
    ensures
        ok ==> r == 1,
        !ok ==> r == 0,
{
    if ok {
        1
    } else {
        0
    }
}

/// Decoding an encoded client frame gives the message back, for every
/// message the wire can carry.
pub proof fn lemma_message_round_trip(m: Message)
    requires
        m.valid(),
    ensures
        Message::spec_decode(m.spec_encode()) == Some(m),
{
    assert(m.spec_encode().subrange(1, MESSAGE_BUFFER_SIZE as int) =~= m.spec_order().spec_encode());
    crate::order::lemma_order_round_trip(m.spec_order());
}

/// A frame shorter (or longer) than seven bytes stands for no message,
/// so it can never advance any state.
pub proof fn lemma_short_frame_rejected(s: Seq<u8>)
    requires
        s.len() != MESSAGE_BUFFER_SIZE,
    ensures
        Message::spec_decode(s) is None,
{
}

} // verus!
