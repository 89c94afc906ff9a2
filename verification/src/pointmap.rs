//! The point map: client id to point record, kept as an association
//! list with unique keys.  A record exists once it has been touched;
//! an absent record counts as no points at all.

use vstd::prelude::*;

use crate::record::{tx_delta, PointRecord, Points};
use crate::transaction::Transaction;
use vstd::pervasive::unreached;

verus! {

/// The record listed under the given id, if any.
pub open spec fn lookup(s: Seq<(u16, PointRecord)>, id: u16) -> Option<PointRecord>
    decreases s.len(),
{
    if s.len() == 0 {
        None
    } else if s[0].0 == id {
        Some(s[0].1)
    } else {
        lookup(s.drop_first(), id)
    }
}

/// The points a client holds: an absent record counts as `(0, 0)`.
pub open spec fn points_of(s: Seq<(u16, PointRecord)>, id: u16) -> Points {
    match lookup(s, id) {
        Some(r) => r.points,
        None => Points(0, 0),
    }
}

/// One entry's contribution to the total of all points in the map.
pub open spec fn entry_points(e: (u16, PointRecord)) -> int {
    e.1.points.0 + e.1.points.1
}

/// All points in the map: available plus locked, summed over clients.
pub open spec fn sum_total(s: Seq<(u16, PointRecord)>) -> int
    decreases s.len(),
{
    if s.len() == 0 {
        0
    } else {
        entry_points(s[0]) + sum_total(s.drop_first())
    }
}

/// No two entries list the same client.
pub open spec fn unique_keys(s: Seq<(u16, PointRecord)>) -> bool {
    forall|i: int, j: int|
        0 <= i < j < s.len() ==> (#[trigger] s[i]).0 != (#[trigger] s[j]).0
}

/// A key found at an index before which it does not occur is what
/// lookup returns.
proof fn lemma_lookup_at(s: Seq<(u16, PointRecord)>, id: u16, i: int)
    requires
        0 <= i < s.len(),
        s[i].0 == id,
        forall|k: int| 0 <= k < i ==> (#[trigger] s[k]).0 != id,
    ensures
        lookup(s, id) == Some(s[i].1),
    decreases i,
{
    if i > 0 {
        lemma_lookup_at(s.drop_first(), id, i - 1);
    }
}

/// A key that occurs nowhere is not found.
proof fn lemma_lookup_absent(s: Seq<(u16, PointRecord)>, id: u16)
    requires
        forall|k: int| 0 <= k < s.len() ==> (#[trigger] s[k]).0 != id,
    ensures
        lookup(s, id) is None,
    decreases s.len(),
{
    if s.len() > 0 {
        lemma_lookup_absent(s.drop_first(), id);
    }
}

/// A key that is not found occurs nowhere.
proof fn lemma_lookup_none_absent(s: Seq<(u16, PointRecord)>, id: u16)
    requires
        lookup(s, id) is None,
    ensures
        forall|k: int| 0 <= k < s.len() ==> (#[trigger] s[k]).0 != id,
    decreases s.len(),
{
    if s.len() > 0 {
        lemma_lookup_none_absent(s.drop_first(), id);
        assert forall|k: int| 0 <= k < s.len() implies (#[trigger] s[k]).0 != id by {
            if k > 0 {
                assert(s.drop_first()[k - 1] == s[k]);
            }
        }
    }
}

/// Replacing the entry at an index changes that key's lookup and no
/// other, provided keys are unique.
proof fn lemma_lookup_update(s: Seq<(u16, PointRecord)>, i: int, rec: PointRecord)
    requires
        unique_keys(s),
        0 <= i < s.len(),
    ensures
        lookup(s.update(i, (s[i].0, rec)), s[i].0) == Some(rec),
        forall|o: u16| o != s[i].0 ==> lookup(s.update(i, (s[i].0, rec)), o) == lookup(s, o),
    decreases i,
{
    let t = s.update(i, (s[i].0, rec));
    if i == 0 {
        assert(t.drop_first() =~= s.drop_first());
    } else {
        assert(t[0] == s[0]);
        assert(unique_keys(s.drop_first())) by {
            assert forall|a: int, b: int|
                0 <= a < b < s.drop_first().len() implies
                (#[trigger] s.drop_first()[a]).0 != (#[trigger] s.drop_first()[b]).0 by {
                assert(s.drop_first()[a] == s[a + 1]);
                assert(s.drop_first()[b] == s[b + 1]);
            }
        }
        assert(t.drop_first() =~= s.drop_first().update(i - 1, (s[i].0, rec)));
        assert(s.drop_first()[i - 1] == s[i]);
        lemma_lookup_update(s.drop_first(), i - 1, rec);
        assert(s[0].0 != s[i].0);
        assert forall|o: u16| o != s[i].0 implies lookup(t, o) == lookup(s, o) by {
            if s[0].0 != o {
                assert(lookup(t, o) == lookup(t.drop_first(), o));
                assert(lookup(s, o) == lookup(s.drop_first(), o));
            }
        }
    }
}

/// Appending an entry under a fresh key adds that key's lookup and
/// changes no other.
proof fn lemma_lookup_push(s: Seq<(u16, PointRecord)>, id: u16, rec: PointRecord)
    requires
        lookup(s, id) is None,
    ensures
        lookup(s.push((id, rec)), id) == Some(rec),
        forall|o: u16| o != id ==> lookup(s.push((id, rec)), o) == lookup(s, o),
    decreases s.len(),
{
    let t = s.push((id, rec));
    if s.len() == 0 {
        assert(t[0] == (id, rec));
        assert forall|o: u16| o != id implies lookup(t, o) == lookup(s, o) by {
            assert(t.drop_first() =~= Seq::<(u16, PointRecord)>::empty());
            assert(lookup(t.drop_first(), o) is None);
            assert(lookup(t, o) is None);
            assert(lookup(s, o) is None);
        }
    } else {
        lemma_lookup_push(s.drop_first(), id, rec);
        assert(t.drop_first() =~= s.drop_first().push((id, rec)));
        assert(t[0] == s[0]);
        assert forall|o: u16| o != id implies lookup(t, o) == lookup(s, o) by {
            if s[0].0 != o {
                assert(lookup(t, o) == lookup(t.drop_first(), o));
                assert(lookup(s, o) == lookup(s.drop_first(), o));
            }
        }
    }
}

/// Replacing one entry moves the total by the difference of the two
/// contributions.
proof fn lemma_sum_update(s: Seq<(u16, PointRecord)>, i: int, e: (u16, PointRecord))
    requires
        0 <= i < s.len(),
    ensures
        sum_total(s.update(i, e)) == sum_total(s) - entry_points(s[i]) + entry_points(e),
    decreases i,
{
    let t = s.update(i, e);
    if i == 0 {
        assert(t.drop_first() =~= s.drop_first());
    } else {
        assert(t[0] == s[0]);
        assert(t.drop_first() =~= s.drop_first().update(i - 1, e));
        assert(s.drop_first()[i - 1] == s[i]);
        lemma_sum_update(s.drop_first(), i - 1, e);
    }
}

/// Appending an entry adds its contribution to the total.
proof fn lemma_sum_push(s: Seq<(u16, PointRecord)>, e: (u16, PointRecord))
    ensures
        sum_total(s.push(e)) == sum_total(s) + entry_points(e),
    decreases s.len(),
{
    let t = s.push(e);
    if s.len() == 0 {
        assert(t.drop_first() =~= Seq::<(u16, PointRecord)>::empty());
        assert(t[0] == e);
        assert(sum_total(t.drop_first()) == 0);
        assert(sum_total(s) == 0);
    } else {
        lemma_sum_push(s.drop_first(), e);
        assert(t.drop_first() =~= s.drop_first().push(e));
        assert(t[0] == s[0]);
    }
}

/// The same map entries with every arbitration pointer cleared: what a
/// SYNC ships, since transactions are per-process.
pub open spec fn stripped(s: Seq<(u16, PointRecord)>) -> Seq<(u16, PointRecord)> {
    s.map_values(|e: (u16, PointRecord)| (e.0, PointRecord { points: e.1.points, transaction: None }))
}

/// A map that holds no arbitration pointer ships unchanged.
pub proof fn lemma_stripped_identity(s: Seq<(u16, PointRecord)>)
    requires
        forall|k: int| 0 <= k < s.len() ==> (#[trigger] s[k]).1.transaction is None,
    ensures
        stripped(s) =~= s,
{
}

/// A transaction applied to a record: the pair moved, the arbitration
/// pointer kept.  Meaningful under feasibility and machine bounds.
pub open spec fn apply_record(r: PointRecord, t: Transaction) -> PointRecord {
    PointRecord {
        points: Points(
            r.points.spec_apply(t.action, t.points).0 as usize,
            r.points.spec_apply(t.action, t.points).1 as usize,
        ),
        transaction: r.transaction,
    }
}

/// A transaction applied to the map entries: the client's record moved
/// in place, or created from nothing on first touch.
pub open spec fn apply_entries(
    s: Seq<(u16, PointRecord)>,
    t: Transaction,
) -> Seq<(u16, PointRecord)> {
    if lookup(s, t.client_id) is Some {
        s.map_values(
            |e: (u16, PointRecord)|
                if e.0 == t.client_id {
                    (e.0, apply_record(e.1, t))
                } else {
                    e
                },
        )
    } else {
        s.push((t.client_id, apply_record(PointRecord { points: Points(0, 0), transaction: None }, t)))
    }
}

/// Entries without the key pass through an apply untouched.
proof fn lemma_apply_entries_absent(s: Seq<(u16, PointRecord)>, t: Transaction)
    requires
        forall|k: int| 0 <= k < s.len() ==> (#[trigger] s[k]).0 != t.client_id,
    ensures
        s.map_values(
            |e: (u16, PointRecord)|
                if e.0 == t.client_id {
                    (e.0, apply_record(e.1, t))
                } else {
                    e
                },
        ) =~= s,
{
}

/// One apply moves the map's total by exactly the transaction's delta.
proof fn lemma_apply_entries_sum(s: Seq<(u16, PointRecord)>, t: Transaction)
    requires
        unique_keys(s),
        points_of(s, t.client_id).spec_can_perform(t.action, t.points),
        points_of(s, t.client_id).spec_fits(t.action, t.points),
    ensures
        sum_total(apply_entries(s, t)) == sum_total(s) + tx_delta(t.action, t.points),
        unique_keys(apply_entries(s, t)),
        forall|o: u16| o != t.client_id ==> lookup(apply_entries(s, t), o) == lookup(s, o),
        lookup(apply_entries(s, t), t.client_id) is Some,
    decreases s.len(),
{
    let f = |e: (u16, PointRecord)|
        if e.0 == t.client_id {
            (e.0, apply_record(e.1, t))
        } else {
            e
        };
    if lookup(s, t.client_id) is Some {
        let m = s.map_values(f);
        assert(s.len() > 0);
        assert(m.drop_first() =~= s.drop_first().map_values(f));
        assert(m[0] == f(s[0]));
        assert(unique_keys(s.drop_first())) by {
            assert forall|a: int, b: int|
                0 <= a < b < s.drop_first().len() implies
                (#[trigger] s.drop_first()[a]).0 != (#[trigger] s.drop_first()[b]).0 by {
                assert(s.drop_first()[a] == s[a + 1]);
                assert(s.drop_first()[b] == s[b + 1]);
            }
        }
        if s[0].0 == t.client_id {
            assert(points_of(s, t.client_id) == s[0].1.points);
            crate::record::lemma_apply_conserves_total(s[0].1.points, t.action, t.points);
            assert forall|k: int| 0 <= k < s.drop_first().len() implies
                (#[trigger] s.drop_first()[k]).0 != t.client_id by {
                assert(s.drop_first()[k] == s[k + 1]);
            }
            lemma_apply_entries_absent(s.drop_first(), t);
            assert(m.drop_first() =~= s.drop_first());
            lemma_lookup_absent(s.drop_first(), t.client_id);
            assert forall|o: u16| o != t.client_id implies lookup(m, o) == lookup(s, o) by {
                if s[0].0 != o {
                    assert(lookup(m, o) == lookup(m.drop_first(), o));
                    assert(lookup(s, o) == lookup(s.drop_first(), o));
                }
            }
        } else {
            assert(points_of(s, t.client_id) == points_of(s.drop_first(), t.client_id));
            lemma_apply_entries_sum(s.drop_first(), t);
            assert(apply_entries(s.drop_first(), t) == s.drop_first().map_values(f));
            assert(m[0] == s[0]);
            assert forall|o: u16| o != t.client_id implies lookup(m, o) == lookup(s, o) by {
                if s[0].0 != o {
                    assert(lookup(m, o) == lookup(m.drop_first(), o));
                    assert(lookup(s, o) == lookup(s.drop_first(), o));
                }
            }
            assert(lookup(m, t.client_id) == lookup(m.drop_first(), t.client_id));
        }
        assert forall|a: int, b: int|
            0 <= a < b < m.len() implies (#[trigger] m[a]).0 != (#[trigger] m[b]).0 by {
            assert(m[a] == f(s[a]) && m[b] == f(s[b]));
            assert(m[a].0 == s[a].0 && m[b].0 == s[b].0);
        }
    } else {
        let rec = apply_record(PointRecord { points: Points(0, 0), transaction: None }, t);
        crate::record::lemma_apply_conserves_total(Points(0, 0), t.action, t.points);
        lemma_sum_push(s, (t.client_id, rec));
        lemma_lookup_push(s, t.client_id, rec);
        lemma_lookup_none_absent(s, t.client_id);
        let m = s.push((t.client_id, rec));
        assert forall|a: int, b: int|
            0 <= a < b < m.len() implies (#[trigger] m[a]).0 != (#[trigger] m[b]).0 by {
            if b < s.len() {
                assert(m[a] == s[a] && m[b] == s[b]);
            } else {
                assert(m[a] == s[a] && m[b] == (t.client_id, rec));
            }
        }
    }
}

/// A history of transactions applied in order.
pub open spec fn apply_history(
    s: Seq<(u16, PointRecord)>,
    txs: Seq<Transaction>,
) -> Seq<(u16, PointRecord)>
    decreases txs.len(),
{
    if txs.len() == 0 {
        s
    } else {
        apply_entries(apply_history(s, txs.drop_last()), txs.last())
    }
}

/// Each transaction of the history is feasible, and within machine
/// bounds, in the state its predecessors left behind.
pub open spec fn history_feasible(s: Seq<(u16, PointRecord)>, txs: Seq<Transaction>) -> bool
    decreases txs.len(),
{
    if txs.len() == 0 {
        true
    } else {
        let before = apply_history(s, txs.drop_last());
        &&& history_feasible(s, txs.drop_last())
        &&& points_of(before, txs.last().client_id)
            .spec_can_perform(txs.last().action, txs.last().points)
        &&& points_of(before, txs.last().client_id)
            .spec_fits(txs.last().action, txs.last().points)
    }
}

/// The sum of the history's deltas: all points ever added, minus all
/// points ever consumed.
pub open spec fn sum_deltas(txs: Seq<Transaction>) -> int
    decreases txs.len(),
{
    if txs.len() == 0 {
        0
    } else {
        sum_deltas(txs.drop_last()) + tx_delta(txs.last().action, txs.last().points)
    }
}

/// The ledger balances: after any feasible history of applied
/// transactions, the points held across all clients — available plus
/// locked — equal what the map started with, plus all points ever
/// added, minus all points ever consumed.
pub proof fn lemma_ledger_balance(s: Seq<(u16, PointRecord)>, txs: Seq<Transaction>)
    requires
        unique_keys(s),
        history_feasible(s, txs),
    ensures
        sum_total(apply_history(s, txs)) == sum_total(s) + sum_deltas(txs),
        unique_keys(apply_history(s, txs)),
    decreases txs.len(),
{
    if txs.len() > 0 {
        lemma_ledger_balance(s, txs.drop_last());
        lemma_apply_entries_sum(apply_history(s, txs.drop_last()), txs.last());
    }
}

/// The map from client id to point record.
#[derive(Debug)]
pub struct PointMap {
    entries: Vec<(u16, PointRecord)>,
}

impl View for PointMap {
    type V = Seq<(u16, PointRecord)>;

    closed spec fn view(&self) -> Seq<(u16, PointRecord)> {
        self.entries@
    }
}

impl Clone for PointMap {
    fn clone(&self) -> (r: Self)
        ensures
            r@ == self@,
    {
        let mut entries: Vec<(u16, PointRecord)> = Vec::new();
        let mut i: usize = 0;
        while i < self.entries.len()
            invariant
                i <= self.entries@.len(),
                entries@ =~= self.entries@.take(i as int),
            decreases self.entries@.len() - i,
        {
            entries.push((self.entries[i].0, self.entries[i].1.clone()));
            proof {
                assert(entries@ =~= self.entries@.take(i + 1 as int));
            }
            i = i + 1;
        }
        proof {
            assert(self.entries@.take(self.entries@.len() as int) =~= self.entries@);
        }
        PointMap { entries }
    }
}

impl PointMap {
    /// No two entries list the same client.
    pub open spec fn wf(self) -> bool {
        unique_keys(self@)
    }

    /// An empty map.
    pub fn new() -> (r: Self)
        ensures
            r@ == Seq::<(u16, PointRecord)>::empty(),
            r.wf(),
    {
        PointMap { entries: Vec::new() }
    }

    pub fn len(&self) -> (r: usize)
        ensures
            r == self@.len(),
    {
        self.entries.len()
    }

    /// Index of the entry for the client, if there is one.
    fn find_index(&self, client_id: u16) -> (r: Option<usize>)
        ensures
            match r {
                Some(i) => i < self@.len() && self@[i as int].0 == client_id
                    && lookup(self@, client_id) == Some(self@[i as int].1),
                None => lookup(self@, client_id) is None,
            },
    {
        let mut i: usize = 0;
        while i < self.entries.len()
            invariant
                i <= self.entries@.len(),
                forall|k: int| 0 <= k < i ==> (#[trigger] self.entries@[k]).0 != client_id,
            decreases self.entries@.len() - i,
        {
            if self.entries[i].0 == client_id {
                proof {
                    lemma_lookup_at(self@, client_id, i as int);
                }
                return Some(i);
            }
            i = i + 1;
        }
        proof {
            lemma_lookup_absent(self@, client_id);
        }
        None
    }

    /// The record for the client, if it exists.
    pub fn get(&self, client_id: u16) -> (r: Option<PointRecord>)
        ensures
            r == lookup(self@, client_id),
    {
        match self.find_index(client_id) {
            Some(i) => Some(self.entries[i].1.clone()),
            None => None,
        }
    }

    /// The record for the client, created as `(0, 0)` on first touch.
    /// Creation adds no points, so the map's total is unchanged.
    pub fn get_point_record(&mut self, client_id: u16) -> (r: PointRecord)
        requires
            old(self).wf(),
        ensures
            final(self).wf(),
            lookup(final(self)@, client_id) == Some(r),
            forall|o: u16| o != client_id ==> lookup(final(self)@, o) == lookup(old(self)@, o),
            sum_total(final(self)@) == sum_total(old(self)@),
            match lookup(old(self)@, client_id) {
                Some(rec) => r == rec && final(self)@ == old(self)@,
                None => r.points == (Points(0, 0)) && r.transaction is None
                    && final(self)@ == old(self)@.push((client_id, r)),
            },
    {
        match self.find_index(client_id) {
            Some(i) => self.entries[i].1.clone(),
            None => {
                let rec = PointRecord::new();
                let ghost s = self@;
                self.entries.push((client_id, rec.clone()));
                proof {
                    lemma_lookup_push(s, client_id, rec);
                    lemma_sum_push(s, (client_id, rec));
                    lemma_lookup_none_absent(s, client_id);
                    assert forall|a: int, b: int|
                        0 <= a < b < self@.len() implies
                        (#[trigger] self@[a]).0 != (#[trigger] self@[b]).0 by {
                        if b < s.len() {
                            assert(self@[a] == s[a] && self@[b] == s[b]);
                        } else {
                            assert(self@[a] == s[a] && self@[b] == (client_id, rec));
                        }
                    }
                }
                rec
            },
        }
    }

    /// Replaces the record of a client that already has one.
    pub fn replace_record(&mut self, client_id: u16, rec: PointRecord)
        requires
            old(self).wf(),
            lookup(old(self)@, client_id) is Some,
        ensures
            final(self).wf(),
            lookup(final(self)@, client_id) == Some(rec),
            forall|o: u16| o != client_id ==> lookup(final(self)@, o) == lookup(old(self)@, o),
            final(self)@.len() == old(self)@.len(),
            lookup(old(self)@, client_id) matches Some(orec) ==>
                sum_total(final(self)@)
                    == sum_total(old(self)@) - entry_points((client_id, orec)) + entry_points((client_id, rec)),
    {
        match self.find_index(client_id) {
            Some(i) => {
                let ghost s = self@;
                let _ = self.entries.remove(i);
                self.entries.insert(i, (client_id, rec));
                proof {
                    assert(self@ =~= s.update(i as int, (client_id, rec)));
                    lemma_lookup_update(s, i as int, rec);
                    lemma_sum_update(s, i as int, (client_id, rec));
                    assert forall|a: int, b: int|
                        0 <= a < b < self@.len() implies
                        (#[trigger] self@[a]).0 != (#[trigger] self@[b]).0 by {
                        assert(self@[a].0 == s[a].0 && self@[b].0 == s[b].0);
                    }
                }
            },
            None => unreached(),
        }
    }

    /// Applies a feasible transaction to the client's record, creating
    /// it on first touch.  The map's total moves by exactly the
    /// transaction's delta, and no other client is touched.
    pub fn apply_tx(&mut self, transaction: &Transaction)
        requires
            old(self).wf(),
            points_of(old(self)@, transaction.client_id).spec_can_perform(transaction.action, transaction.points),
            points_of(old(self)@, transaction.client_id).spec_fits(transaction.action, transaction.points),
        ensures
            final(self).wf(),
            lookup(final(self)@, transaction.client_id) matches Some(rec)
                && rec.points.0 == points_of(old(self)@, transaction.client_id).spec_apply(transaction.action, transaction.points).0
                && rec.points.1 == points_of(old(self)@, transaction.client_id).spec_apply(transaction.action, transaction.points).1
                && rec.transaction == match lookup(old(self)@, transaction.client_id) {
                    Some(orec) => orec.transaction,
                    None => None::<Transaction>,
                },
            forall|o: u16| o != transaction.client_id ==> lookup(final(self)@, o) == lookup(old(self)@, o),
            sum_total(final(self)@) == sum_total(old(self)@) + tx_delta(transaction.action, transaction.points),
    {
        let rec = self.get_point_record(transaction.client_id);
        let mut points = rec.points;
        points.apply(transaction.clone());
        proof {
            crate::record::lemma_apply_conserves_total(rec.points, transaction.action, transaction.points);
        }
        self.replace_record(
            transaction.client_id,
            PointRecord { points, transaction: rec.transaction },
        );
    }

    /// Sets or clears the arbitration pointer of a client's record,
    /// creating the record on first touch.  Points are untouched.
    pub fn set_record_transaction(&mut self, client_id: u16, transaction: Option<Transaction>)
        requires
            old(self).wf(),
        ensures
            final(self).wf(),
            lookup(final(self)@, client_id) matches Some(rec)
                && rec.points == points_of(old(self)@, client_id)
                && rec.transaction == transaction,
            forall|o: u16| o != client_id ==> lookup(final(self)@, o) == lookup(old(self)@, o),
            sum_total(final(self)@) == sum_total(old(self)@),
    {
        let rec = self.get_point_record(client_id);
        self.replace_record(client_id, PointRecord { points: rec.points, transaction });
    }

    /// Inserts or replaces the record of a client: how a received SYNC
    /// map is rebuilt record by record.
    pub fn put(&mut self, client_id: u16, rec: PointRecord)
        requires
            old(self).wf(),
        ensures
            final(self).wf(),
            lookup(final(self)@, client_id) == Some(rec),
            forall|o: u16| o != client_id ==> lookup(final(self)@, o) == lookup(old(self)@, o),
    {
        match self.find_index(client_id) {
            Some(_) => {
                self.replace_record(client_id, rec);
            },
            None => {
                let ghost s = self@;
                self.entries.push((client_id, rec));
                proof {
                    lemma_lookup_push(s, client_id, rec);
                    lemma_lookup_none_absent(s, client_id);
                    assert forall|a: int, b: int|
                        0 <= a < b < self@.len() implies
                        (#[trigger] self@[a]).0 != (#[trigger] self@[b]).0 by {
                        if b < s.len() {
                            assert(self@[a] == s[a] && self@[b] == s[b]);
                        } else {
                            assert(self@[a] == s[a] && self@[b] == (client_id, rec));
                        }
                    }
                }
            },
        }
    }

    /// The map's entries, client by client.
    pub fn to_entries(&self) -> (r: Vec<(u16, PointRecord)>)
        ensures
            r@ == self@,
    {
        let mut r: Vec<(u16, PointRecord)> = Vec::new();
        let mut i: usize = 0;
        while i < self.entries.len()
            invariant
                i <= self.entries@.len(),
                r@ =~= self.entries@.take(i as int),
            decreases self.entries@.len() - i,
        {
            r.push((self.entries[i].0, self.entries[i].1.clone()));
            proof {
                assert(r@ =~= self.entries@.take(i + 1 as int));
            }
            i = i + 1;
        }
        proof {
            assert(self.entries@.take(self.entries@.len() as int) =~= self.entries@);
        }
        r
    }

    /// The copy of the map that a SYNC ships: same points for every
    /// client, every arbitration pointer cleared.
    pub fn clone_stripped(&self) -> (r: PointMap)
        requires
            self.wf(),
        ensures
            r@ == stripped(self@),
            r.wf(),
    {
        let mut entries: Vec<(u16, PointRecord)> = Vec::new();
        let mut i: usize = 0;
        while i < self.entries.len()
            invariant
                i <= self.entries@.len(),
                entries@ =~= stripped(self.entries@.take(i as int)),
            decreases self.entries@.len() - i,
        {
            entries.push((
                self.entries[i].0,
                PointRecord { points: self.entries[i].1.points, transaction: None },
            ));
            proof {
                assert(entries@ =~= stripped(self.entries@.take(i + 1 as int)));
            }
            i = i + 1;
        }
        proof {
            assert(self.entries@.take(self.entries@.len() as int) =~= self.entries@);
            assert(stripped(self.entries@) =~= stripped(self.entries@.take(self.entries@.len() as int)));
            assert forall|a: int, b: int|
                0 <= a < b < stripped(self.entries@).len() implies
                (#[trigger] stripped(self.entries@)[a]).0 != (#[trigger] stripped(self.entries@)[b]).0 by {
                assert(self.entries@[a].0 != self.entries@[b].0);
            }
        }
        PointMap { entries }
    }
}

} // verus!
