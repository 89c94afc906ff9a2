//! Control channel: one byte flips a server between online and offline.

use vstd::prelude::*;

use crate::text::{chars_vec, find_non_space, find_space, index_non_space, index_space};
use vstd::string::StrSliceExecFns;

verus! {

/// An administrative order received on the control channel.
#[derive(Debug, Clone, Copy, PartialEq, Eq, Structural)]
pub enum ControlMessage {
    Unknown,
    Disconnect,
    Connect,
}

/// The byte that encodes a control message on the wire.
pub fn control_to_byte(msg: ControlMessage) -> (r: u8)
    ensures
        msg == ControlMessage::Unknown ==> r == 0,
        msg == ControlMessage::Disconnect ==> r == 1,
        msg == ControlMessage::Connect ==> r == 2,
{
    match msg {
        ControlMessage::Unknown => 0,
        ControlMessage::Disconnect => 1,
        ControlMessage::Connect => 2,
    }
}

/// The control message a received byte stands for; unknown bytes are ignored.
pub fn control_from_byte(byte: u8) -> (r: ControlMessage)
    ensures
        byte == 1 ==> r == ControlMessage::Disconnect,
        byte == 2 ==> r == ControlMessage::Connect,
        byte != 1 && byte != 2 ==> r == ControlMessage::Unknown,
{
    match byte {
        1 => ControlMessage::Disconnect,
        2 => ControlMessage::Connect,
        _ => ControlMessage::Unknown,
    }
}

/// The control message a word's first letter names.
pub open spec fn control_of_char(c: char) -> ControlMessage {
    if c == 'D' || c == 'd' {
        ControlMessage::Disconnect
    } else if c == 'C' || c == 'c' {
        ControlMessage::Connect
    } else {
        ControlMessage::Unknown
    }
}

/// Start of the first token of a line.
pub open spec fn tok1_start(s: Seq<char>) -> int {
    index_non_space(s)
}

/// End of the first token.
pub open spec fn tok1_end(s: Seq<char>) -> int {
    tok1_start(s) + index_space(s.skip(tok1_start(s)))
}

/// Start of the second token.
pub open spec fn tok2_start(s: Seq<char>) -> int {
    tok1_end(s) + index_non_space(s.skip(tok1_end(s)))
}

/// End of the second token.
pub open spec fn tok2_end(s: Seq<char>) -> int {
    tok2_start(s) + index_space(s.skip(tok2_start(s)))
}

/// One line of the control console: a disconnect or connect word and
/// the server it is aimed at.
#[derive(Debug)]
pub struct Request {
    pub msg: ControlMessage,
    pub addr: String,
}

impl Request {
    /// Parses a control line.  The first token's first letter picks the
    /// message — an unknown letter is kept as Unknown — and the second
    /// token names the target server, a bare port meaning the local
    /// host.  A line without two tokens is nothing.
    pub fn parse(line: &str) -> (r: Option<Request>)
        ensures
            r is Some <==> tok1_start(line@) < line@.len() && tok2_start(line@) < line@.len(),
            r matches Some(req) ==> req.msg == control_of_char(line@[tok1_start(line@)])
                && req.addr@ == crate::spec_parse_addr(
                    line@.subrange(tok2_start(line@), tok2_end(line@)),
                ),
    {
        let v = chars_vec(line);
        let len = v.len();

        let a1 = find_non_space(&v, 0);
        proof {
            assert(v@.skip(0) =~= line@);
        }
        if a1 >= len {
            return None;
        }
        let b1 = find_space(&v, a1);
        let a2 = find_non_space(&v, b1);
        if a2 >= len {
            return None;
        }
        let b2 = find_space(&v, a2);

        let c = v[a1];
        let msg = if c == 'D' || c == 'd' {
            ControlMessage::Disconnect
        } else if c == 'C' || c == 'c' {
            ControlMessage::Connect
        } else {
            ControlMessage::Unknown
        };

        let tok = line.substring_char(a2, b2);
        let addr = crate::parse_addr(tok.to_owned());
        Some(Request { msg, addr })
    }
}

} // verus!
