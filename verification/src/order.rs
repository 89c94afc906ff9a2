//! Client orders: spend (USE) or accrue (FILL) points for one client,
//! and their fixed six-byte wire body.

use vstd::prelude::*;

use crate::text::{chars_vec, digits_val, find_char, index_of, is_digits, parse_digits, range_is};

verus! {

/// What a client order does: spend points or accrue points.
#[derive(Debug, Clone, Copy, PartialEq, Eq, Structural)]
pub enum OrderAction {
    UsePoints(usize),
    FillPoints(usize),
}

impl OrderAction {
    /// The number of points the action moves.
    pub open spec fn spec_points(self) -> usize {
        match self {
            OrderAction::UsePoints(n) => n,
            OrderAction::FillPoints(n) => n,
        }
    }

    pub fn points(&self) -> (r: usize)
        ensures
            r == self.spec_points(),
    {
        match self {
            OrderAction::UsePoints(n) => *n,
            OrderAction::FillPoints(n) => *n,
        }
    }
}

/// One client order: which client, and what to do with how many points.
#[derive(Debug, Clone, Copy, PartialEq, Eq, Structural)]
pub struct Order {
    pub client_id: u16,
    pub action: OrderAction,
}

/// Length of the order body on the wire: two bytes of client id, one
/// action tag, three decimal digits of points.
pub const ORDER_BUFFER_SIZE: usize = 6;

impl Order {
    pub fn new(client_id: u16, action: OrderAction) -> (r: Self)
        ensures
            r.client_id == client_id,
            r.action == action,
    {
        Order { client_id, action }
    }

    /// The order a CSV line spells: a client id, the word USE or FILL,
    /// and a point amount, separated by commas; whatever follows a
    /// further comma is ignored.
    pub open spec fn spec_parse(s: Seq<char>) -> Option<Order> {
        let i = index_of(s, ',');
        if i >= s.len() {
            None
        } else {
            let id_tok = s.take(i);
            let rest = s.skip(i + 1);
            let j = index_of(rest, ',');
            let action_tok = rest.take(j);
            if action_tok != "USE"@ && action_tok != "FILL"@ {
                None
            } else if j >= rest.len() {
                None
            } else {
                let rest2 = rest.skip(j + 1);
                let num_tok = rest2.take(index_of(rest2, ','));
                if !is_digits(num_tok) || digits_val(num_tok) > usize::MAX {
                    None
                } else if !is_digits(id_tok) || digits_val(id_tok) > u16::MAX {
                    None
                } else {
                    let n = digits_val(num_tok) as usize;
                    Some(Order {
                        client_id: digits_val(id_tok) as u16,
                        action: if action_tok == "USE"@ {
                            OrderAction::UsePoints(n)
                        } else {
                            OrderAction::FillPoints(n)
                        },
                    })
                }
            }
        }
    }

    /// Parses one line of the order list.  Lines that do not spell an
    /// order — too few fields, an unknown action word, a field that is
    /// not a number or does not fit — are refused.
    pub fn parse(line: String) -> (r: Result<Order, String>)
        ensures
            r is Ok <==> Self::spec_parse(line@) is Some,
            r matches Ok(o) ==> Self::spec_parse(line@) == Some(o),
    {
        let v = chars_vec(line.as_str());
        let ghost s = line@;
        let len = v.len();

        let i = find_char(&v, 0, ',');
        proof {
            assert(v@.skip(0) =~= s);
        }
        if i >= len {
            return Err("Invalid order".to_owned());
        }

        let ghost rest = s.skip(i + 1);
        let j0 = find_char(&v, i + 1, ',');
        proof {
            assert(rest.take(j0 - (i + 1)) =~= s.subrange(i + 1, j0 as int));
        }
        let use_tok = range_is(&v, i + 1, j0, "USE");
        let fill_tok = range_is(&v, i + 1, j0, "FILL");
        if !use_tok && !fill_tok {
            return Err("Invalid action".to_owned());
        }
        if j0 >= len {
            return Err("Invalid order".to_owned());
        }

        let ghost rest2 = rest.skip(j0 - i);
        let k0 = find_char(&v, j0 + 1, ',');
        proof {
            assert(rest2 =~= s.skip(j0 + 1));
            assert(rest2.take(k0 - (j0 + 1)) =~= s.subrange(j0 + 1, k0 as int));
        }
        let n = match parse_digits(&v, j0 + 1, k0) {
            None => {
                return Err("Invalid points".to_owned());
            },
            Some(n) => n,
        };

        proof {
            assert(s.take(i as int) =~= s.subrange(0, i as int));
        }
        let idv = match parse_digits(&v, 0, i) {
            None => {
                return Err("Invalid client id".to_owned());
            },
            Some(x) => x,
        };
        if idv > 65535 {
            return Err("Invalid client id".to_owned());
        }

        let action = if use_tok {
            OrderAction::UsePoints(n)
        } else {
            OrderAction::FillPoints(n)
        };
        Ok(Order { client_id: idv as u16, action })
    }

    /// A representable order moves at most 999 points: the wire carries
    /// the amount as three decimal digits.
    pub open spec fn valid(self) -> bool {
        self.action.spec_points() <= 999
    }

    /// The action tag byte: 1 for USE, 2 for FILL.
    pub open spec fn spec_action_tag(self) -> u8 {
        match self.action {
            OrderAction::UsePoints(_) => 1,
            OrderAction::FillPoints(_) => 2,
        }
    }

    /// The six-byte wire body: client id big-endian, action tag, then
    /// the hundreds, tens and ones digits of the point amount.
    pub open spec fn spec_encode(self) -> Seq<u8> {
        let n = self.action.spec_points();
        seq![
            (self.client_id / 256) as u8,
            (self.client_id % 256) as u8,
            self.spec_action_tag(),
            (n / 100) as u8,
            ((n % 100) / 10) as u8,
            (n % 10) as u8,
        ]
    }

    pub fn encode(&self) -> (r: Vec<u8>)
        requires
            self.valid(),
        ensures
            r@ == self.spec_encode(),
            r@.len() == ORDER_BUFFER_SIZE,
    {
        let n = self.action.points();
        let tag: u8 = match self.action {
            OrderAction::UsePoints(_) => 1,
            OrderAction::FillPoints(_) => 2,
        };
        let r = vec![
            (self.client_id / 256) as u8,
            (self.client_id % 256) as u8,
            tag,
            (n / 100) as u8,
            ((n % 100) / 10) as u8,
            (n % 10) as u8,
        ];
        proof {
            assert(r@ =~= self.spec_encode());
        }
        r
    }

    /// The order a six-byte body stands for, if its action tag is known.
    pub open spec fn spec_decode(s: Seq<u8>) -> Option<Order> {
        if s.len() != ORDER_BUFFER_SIZE {
            None
        } else {
            let client_id = ((s[0] as int) * 256 + (s[1] as int)) as u16;
            let points = ((s[3] as int) * 100 + (s[4] as int) * 10 + (s[5] as int)) as usize;
            if s[2] == 1 {
                Some(Order { client_id, action: OrderAction::UsePoints(points) })
            } else if s[2] == 2 {
                Some(Order { client_id, action: OrderAction::FillPoints(points) })
            } else {
                None
            }
        }
    }

    pub fn decode(bytes: &Vec<u8>) -> (r: Option<Order>)
        ensures
            r == Self::spec_decode(bytes@),
    {
        if bytes.len() != ORDER_BUFFER_SIZE {
            return None;
        }
        let client_id = (bytes[0] as u16) * 256 + (bytes[1] as u16);
        let points = (bytes[3] as usize) * 100 + (bytes[4] as usize) * 10 + (bytes[5] as usize);
        if bytes[2] == 1 {
            Some(Order { client_id, action: OrderAction::UsePoints(points) })
        } else if bytes[2] == 2 {
            Some(Order { client_id, action: OrderAction::FillPoints(points) })
        } else {
            None
        }
    }
}

/// Splitting a point amount into three decimal digits loses nothing
/// when the amount fits in three digits.
proof fn lemma_three_digits(n: usize)
    requires
        n <= 999,
    ensures
        (n / 100) * 100 + ((n % 100) / 10) * 10 + n % 10 == n,
        n / 100 <= 9,
        (n % 100) / 10 <= 9,
        n % 10 <= 9,
{
    assert((n / 100) * 100 + ((n % 100) / 10) * 10 + n % 10 == n) by (nonlinear_arith)
        requires n <= 999;
    assert(n / 100 <= 9) by (nonlinear_arith)
        requires n <= 999;
}

/// Splitting a client id into two big-endian bytes loses nothing.
proof fn lemma_id_bytes(id: u16)
    ensures
        (id / 256) * 256 + id % 256 == id,
        id / 256 <= 255,
        id % 256 <= 255,
{
}

/// Decoding an encoded order gives the order back, for every order the
/// wire can carry.
pub proof fn lemma_order_round_trip(o: Order)
    requires
        o.valid(),
    ensures
        Order::spec_decode(o.spec_encode()) == Some(o),
{
    lemma_three_digits(o.action.spec_points());
    lemma_id_bytes(o.client_id);
}

} // verus!
