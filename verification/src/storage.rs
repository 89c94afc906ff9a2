//! Point storage: one server's replicated state — the point map, the
//! membership set, the online flag and the pending queue — together
//! with the membership and synchronisation operations over it.

use vstd::prelude::*;

use crate::error::StoreError;
use crate::pending::PendingTransactions;
use crate::pointmap::{lookup, stripped, sum_total, PointMap};
use crate::record::PointRecord;

verus! {

/// A CONNECT body: the joining server's address; `copy` marks the
/// broadcast copies that receivers only record.
#[derive(Debug)]
pub struct ConnectRequest {
    pub addr: String,
    pub copy: bool,
}

/// A CONNECT reply: the receiver's full server set.
#[derive(Debug)]
pub struct ConnectResponse {
    pub servers: Vec<String>,
}

/// A SYNC body carries nothing.
#[derive(Debug)]
pub struct SyncRequest {}

/// A SYNC reply: the full point map.
#[derive(Debug)]
pub struct SyncResponse {
    pub points: PointMap,
}

/// A PING body carries nothing.
#[derive(Debug)]
pub struct PingRequest {}

/// A PING reply carries nothing: answering is the point.
#[derive(Debug)]
pub struct PingResponse {}

/// The CONNECT copy to forward to one peer when a server joins.
pub fn spread_connect_to(addr: &String) -> (r: ConnectRequest)
    ensures
        r.addr == *addr,
        r.copy,
{
    ConnectRequest { addr: addr.clone(), copy: true }
}

/// The addresses of a server list, as character sequences.
pub open spec fn addr_views(s: Seq<String>) -> Seq<Seq<char>> {
    s.map_values(|a: String| a@)
}

/// No address is listed twice.
pub open spec fn unique_addrs(s: Seq<Seq<char>>) -> bool {
    forall|i: int, j: int| 0 <= i < j < s.len() ==> s[i] != s[j]
}

/// The addresses of the list with one address taken out, in order.
pub open spec fn others_of(s: Seq<Seq<char>>, me: Seq<char>) -> Seq<Seq<char>>
    decreases s.len(),
{
    if s.len() == 0 {
        Seq::empty()
    } else {
        let front = others_of(s.drop_last(), me);
        if s.last() == me {
            front
        } else {
            front.push(s.last())
        }
    }
}

/// The addresses of the list with two addresses taken out, in order:
/// the peers a CONNECT is forwarded to, excluding the joiner and self.
pub open spec fn spread_targets(s: Seq<Seq<char>>, addr: Seq<char>, me: Seq<char>) -> Seq<Seq<char>>
    decreases s.len(),
{
    if s.len() == 0 {
        Seq::empty()
    } else {
        let front = spread_targets(s.drop_last(), addr, me);
        if s.last() == addr || s.last() == me {
            front
        } else {
            front.push(s.last())
        }
    }
}

/// Whether the list holds the address.
fn contains_addr(v: &Vec<String>, addr: &String) -> (r: bool)
    ensures
        r == addr_views(v@).contains(addr@),
{
    let mut i: usize = 0;
    while i < v.len()
        invariant
            i <= v@.len(),
            forall|k: int| 0 <= k < i ==> (#[trigger] addr_views(v@)[k]) != addr@,
        decreases v@.len() - i,
    {
        if v[i].eq(addr) {
            proof {
                assert(addr_views(v@)[i as int] == addr@);
            }
            return true;
        }
        proof {
            assert(addr_views(v@)[i as int] == v@[i as int]@);
        }
        i = i + 1;
    }
    proof {
        assert(!addr_views(v@).contains(addr@));
    }
    false
}

/// A copy of a server list, address for address.
fn clone_addrs(v: &Vec<String>) -> (r: Vec<String>)
    ensures
        r@ == v@,
{
    let mut r: Vec<String> = Vec::new();
    let mut i: usize = 0;
    while i < v.len()
        invariant
            i <= v@.len(),
            r@ =~= v@.take(i as int),
        decreases v@.len() - i,
    {
        r.push(v[i].clone());
        proof {
            assert(r@ =~= v@.take(i + 1 as int));
        }
        i = i + 1;
    }
    proof {
        assert(v@.take(v@.len() as int) =~= v@);
    }
    r
}

/// What a server answers and forwards when another server joins.
#[derive(Debug)]
pub struct ConnectOutcome {
    /// The full server set to answer with; an originating CONNECT gets
    /// one, a broadcast copy gets an empty reply.
    pub response: Option<ConnectResponse>,
    /// The peers to forward a copy of the CONNECT to.
    pub notify: Vec<String>,
}

/// One server's replicated state.
#[verifier::ext_equal]
#[derive(Debug)]
pub struct PointStorage {
    /// The point records, one per client ever touched.
    pub points: PointMap,
    /// Every known peer address, this server's own included.
    pub servers: Vec<String>,
    /// This server's own address.
    pub self_address: String,
    /// The administrative online flag, flipped by the control channel.
    pub online: bool,
    /// The backlog of transactions awaiting a reachable peer set.
    pub pending: PendingTransactions,
}

/// The same storage with the online flag set as given.
pub open spec fn spec_with_online(s: PointStorage, online: bool) -> PointStorage {
    PointStorage {
        points: s.points,
        servers: s.servers,
        self_address: s.self_address,
        online,
        pending: s.pending,
    }
}

/// Disconnecting and then connecting, with no traffic in between,
/// leaves the storage exactly as it was.
pub proof fn lemma_reconnect_identity(s: PointStorage)
    requires
        s.online,
    ensures
        spec_with_online(spec_with_online(s, false), true) == s,
{
    assert(spec_with_online(spec_with_online(s, false), true) =~= s);
}

impl PointStorage {
    /// The storage keeps unique point records and unique addresses.
    pub open spec fn wf(self) -> bool {
        self.points.wf() && unique_addrs(addr_views(self.servers@))
    }

    /// A fresh storage: no points, itself as the only known server,
    /// online, with an empty pending queue.  Joining a cluster is a
    /// matter of installing a peer's server set and point map.
    pub fn new(self_address: String) -> (r: Self)
        ensures
            r.wf(),
            r.points@ == Seq::<(u16, PointRecord)>::empty(),
            addr_views(r.servers@) =~= seq![self_address@],
            r.self_address == self_address,
            r.online,
            r.pending.txs() == Seq::<crate::transaction::Transaction>::empty(),
            r.pending.spec_connected(),
    {
        let servers = vec![self_address.clone()];
        PointStorage {
            points: PointMap::new(),
            servers,
            self_address,
            online: true,
            pending: PendingTransactions::new(),
        }
    }

    /// Succeeds exactly while the server is online; the offline error
    /// is what every guarded path answers.
    pub fn check_online(&self) -> (r: Result<(), StoreError>)
        ensures
            r is Ok <==> self.online,
            r is Err ==> r == Err::<(), StoreError>(StoreError::Offline),
    {
        if self.online {
            Ok(())
        } else {
            Err(StoreError::Offline)
        }
    }

    /// The record for the client, created as `(0, 0)` on first touch.
    pub fn get_point_record(&mut self, client_id: u16) -> (r: PointRecord)
        requires
            old(self).wf(),
        ensures
            final(self).wf(),
            lookup(final(self).points@, client_id) == Some(r),
            forall|o: u16| o != client_id
                ==> lookup(final(self).points@, o) == lookup(old(self).points@, o),
            sum_total(final(self).points@) == sum_total(old(self).points@),
            final(self).servers == old(self).servers,
            final(self).self_address == old(self).self_address,
            final(self).online == old(self).online,
            final(self).pending == old(self).pending,
    {
        self.points.get_point_record(client_id)
    }

    /// Every known peer but this server itself.
    pub fn get_other_servers(&self) -> (r: Vec<String>)
        ensures
            addr_views(r@) == others_of(addr_views(self.servers@), self.self_address@),
    {
        let ghost aviews = addr_views(self.servers@);
        let mut r: Vec<String> = Vec::new();
        let mut i: usize = 0;
        proof {
            assert(aviews.take(0) =~= Seq::<Seq<char>>::empty());
            assert(addr_views(r@) =~= others_of(aviews.take(0), self.self_address@));
        }
        while i < self.servers.len()
            invariant
                i <= self.servers@.len(),
                aviews == addr_views(self.servers@),
                aviews.len() == self.servers@.len(),
                addr_views(r@) =~= others_of(aviews.take(i as int), self.self_address@),
            decreases self.servers@.len() - i,
        {
            proof {
                assert(aviews.take(i + 1 as int).drop_last() =~= aviews.take(i as int));
                assert(aviews.take(i + 1 as int).last() == aviews[i as int]);
                assert(aviews[i as int] == self.servers@[i as int]@);
            }
            if !self.servers[i].eq(&self.self_address) {
                r.push(self.servers[i].clone());
            }
            proof {
                assert(addr_views(r@) =~= others_of(aviews.take(i + 1 as int), self.self_address@));
            }
            i = i + 1;
        }
        proof {
            assert(aviews.take(self.servers@.len() as int) =~= aviews);
        }
        r
    }

    /// The peers a joining server's address is forwarded to: every
    /// known server except the joiner and this server itself.
    pub fn spread_connection(&self, addr: &String) -> (r: Vec<String>)
        ensures
            addr_views(r@) == spread_targets(addr_views(self.servers@), addr@, self.self_address@),
    {
        let ghost aviews = addr_views(self.servers@);
        let mut r: Vec<String> = Vec::new();
        let mut i: usize = 0;
        proof {
            assert(aviews.take(0) =~= Seq::<Seq<char>>::empty());
            assert(addr_views(r@) =~= spread_targets(aviews.take(0), addr@, self.self_address@));
        }
        while i < self.servers.len()
            invariant
                i <= self.servers@.len(),
                aviews == addr_views(self.servers@),
                aviews.len() == self.servers@.len(),
                addr_views(r@) =~= spread_targets(aviews.take(i as int), addr@, self.self_address@),
            decreases self.servers@.len() - i,
        {
            proof {
                assert(aviews.take(i + 1 as int).drop_last() =~= aviews.take(i as int));
                assert(aviews.take(i + 1 as int).last() == aviews[i as int]);
                assert(aviews[i as int] == self.servers@[i as int]@);
            }
            if !self.servers[i].eq(addr) && !self.servers[i].eq(&self.self_address) {
                r.push(self.servers[i].clone());
            }
            proof {
                assert(addr_views(r@) =~= spread_targets(
                    aviews.take(i + 1 as int),
                    addr@,
                    self.self_address@,
                ));
            }
            i = i + 1;
        }
        proof {
            assert(aviews.take(self.servers@.len() as int) =~= aviews);
        }
        r
    }

    /// Records a joining server.  An originating CONNECT is answered
    /// with the full server set and forwarded to every other peer; a
    /// broadcast copy is only recorded.  Refused while offline.
    pub fn add_connection(&mut self, request: ConnectRequest) -> (r: Result<
        ConnectOutcome,
        StoreError,
    >)
        requires
            old(self).wf(),
        ensures
            final(self).wf(),
            !old(self).online ==> r == Err::<ConnectOutcome, StoreError>(StoreError::Offline)
                && *final(self) == *old(self),
            old(self).online ==> (r matches Ok(outcome) && {
                &&& addr_views(final(self).servers@) == (
                    if addr_views(old(self).servers@).contains(request.addr@) {
                        addr_views(old(self).servers@)
                    } else {
                        addr_views(old(self).servers@).push(request.addr@)
                    })
                &&& addr_views(outcome.notify@) == (
                    if request.copy {
                        Seq::<Seq<char>>::empty()
                    } else {
                        spread_targets(
                            addr_views(old(self).servers@),
                            request.addr@,
                            old(self).self_address@,
                        )
                    })
                &&& match outcome.response {
                    Some(resp) => !request.copy && resp.servers@ == final(self).servers@,
                    None => request.copy,
                }
                &&& final(self).points@ == old(self).points@
                &&& final(self).self_address == old(self).self_address
                &&& final(self).online == old(self).online
                &&& final(self).pending == old(self).pending
            }),
    {
        if !self.online {
            return Err(StoreError::Offline);
        }

        let notify: Vec<String> = if !request.copy {
            self.spread_connection(&request.addr)
        } else {
            Vec::new()
        };

        if !contains_addr(&self.servers, &request.addr) {
            let ghost before = addr_views(self.servers@);
            let ghost a = request.addr@;
            self.servers.push(request.addr);
            proof {
                assert(addr_views(self.servers@) =~= before.push(a));
                assert forall|x: int, y: int|
                    0 <= x < y < addr_views(self.servers@).len() implies
                    addr_views(self.servers@)[x] != addr_views(self.servers@)[y] by {
                    if y == before.len() {
                        assert(addr_views(self.servers@)[y] == a);
                        assert(addr_views(self.servers@)[x] == before[x]);
                        assert(!before.contains(a));
                    }
                }
            }
        }

        let response = if request.copy {
            None
        } else {
            Some(ConnectResponse { servers: clone_addrs(&self.servers) })
        };

        Ok(ConnectOutcome { response, notify })
    }

    /// The SYNC answer: the full point map, with every arbitration
    /// pointer cleared — transactions are per-process.  Refused while
    /// offline.
    pub fn sync(&self, _request: SyncRequest) -> (r: Result<SyncResponse, StoreError>)
        requires
            self.wf(),
        ensures
            r is Ok <==> self.online,
            r matches Ok(resp) ==> resp.points@ == stripped(self.points@) && resp.points.wf(),
            r is Err ==> r == Err::<SyncResponse, StoreError>(StoreError::Offline),
    {
        if !self.online {
            return Err(StoreError::Offline);
        }
        Ok(SyncResponse { points: self.points.clone_stripped() })
    }

    /// Overwrites the point map with a peer's, as on join and on
    /// reconnect.
    pub fn install_points(&mut self, points: PointMap)
        requires
            points.wf(),
        ensures
            final(self).points == points,
            final(self).servers == old(self).servers,
            final(self).self_address == old(self).self_address,
            final(self).online == old(self).online,
            final(self).pending == old(self).pending,
            old(self).wf() ==> final(self).wf(),
    {
        self.points = points;
    }

    /// Overwrites the server set, as on join.  The caller hands in a
    /// list without repeated addresses.
    pub fn install_servers(&mut self, servers: Vec<String>)
        requires
            unique_addrs(addr_views(servers@)),
        ensures
            final(self).servers == servers,
            final(self).points == old(self).points,
            final(self).self_address == old(self).self_address,
            final(self).online == old(self).online,
            final(self).pending == old(self).pending,
            old(self).wf() ==> final(self).wf(),
    {
        self.servers = servers;
    }

    /// Goes administratively offline: every guarded path then refuses.
    pub fn disconnect(&mut self)
        ensures
            *final(self) == spec_with_online(*old(self), false),
    {
        self.online = false;
        proof {
            assert(*self =~= spec_with_online(*old(self), false));
        }
    }

    /// Comes back online.  The caller then drains a peer for a SYNC and
    /// installs the answer; failing that is logged, not fatal.
    pub fn connect(&mut self)
        ensures
            *final(self) == spec_with_online(*old(self), true),
    {
        self.online = true;
        proof {
            assert(*self =~= spec_with_online(*old(self), true));
        }
    }

    /// The PING answer: an offline server keeps silent, so that it
    /// looks no different from a dead one.
    pub fn ping_reply(&self) -> (r: Option<PingResponse>)
        ensures
            r is Some <==> self.online,
    {
        if self.online {
            Some(PingResponse {})
        } else {
            None
        }
    }

    /// Settles one ping cycle: with at least one peer answering, the
    /// pending queue counts as connected; with none, as disconnected.
    /// Returns whether this reconnected the queue — the caller then
    /// re-synchronises state from a peer.
    pub fn apply_ping_outcome(&mut self, any_success: bool) -> (resync: bool)
        ensures
            final(self).pending.spec_connected() == any_success,
            final(self).pending.txs() == old(self).pending.txs(),
            resync == (any_success && !old(self).pending.spec_connected()),
            final(self).points == old(self).points,
            final(self).servers == old(self).servers,
            final(self).self_address == old(self).self_address,
            final(self).online == old(self).online,
    {
        if any_success {
            self.pending.connect()
        } else {
            self.pending.disconnect();
            false
        }
    }
}

/// Whether any ping of a cycle succeeded.
pub fn ping_cycle_outcome(results: &Vec<bool>) -> (r: bool)
    ensures
        r == results@.contains(true),
{
    let mut i: usize = 0;
    while i < results.len()
        invariant
            i <= results@.len(),
            forall|k: int| 0 <= k < i ==> !(#[trigger] results@[k]),
        decreases results@.len() - i,
    {
        if results[i] {
            return true;
        }
        i = i + 1;
    }
    proof {
        assert(!results@.contains(true));
    }
    false
}

} // verus!
