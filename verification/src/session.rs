//! The session store: an expiring key-value table for opaque payloads.
//!
//! A record is an opaque byte blob with an absolute expiry, keyed by an
//! opaque id the caller generates. `save` is an upsert, `load` filters by
//! expiry — a record whose expiry has passed is never returned, whether or
//! not it is still physically present — `delete` is idempotent, and
//! `delete_expired` sweeps every expired row at once. The current time is an
//! input: the caller reads its clock and passes the instant in, so every
//! contract here is exact.

use vstd::prelude::*;

verus! {

/// A session record: an opaque serialized payload and its expiry, keyed by
/// an opaque caller-generated id.
#[derive(Debug)]
pub struct SessionRecord {
    /// The opaque session id
    pub id: u128,
    /// The opaque serialized session state; the store never interprets it
    pub payload: Vec<u8>,
    /// The absolute instant (seconds) after which the record is invisible
    pub expiry: u64,
}

/// The mathematical image of one stored session record.
pub struct SessionModel {
    /// The opaque session id
    pub id: u128,
    /// The stored payload bytes
    pub payload: Seq<u8>,
    /// The record's absolute expiry
    pub expiry: u64,
}

impl View for SessionRecord {
    type V = SessionModel;

    open spec fn view(&self) -> SessionModel {
        SessionModel { id: self.id, payload: self.payload@, expiry: self.expiry }
    }
}

impl Clone for SessionRecord {
    fn clone(&self) -> (r: Self)
        ensures
            r@ == self@,
    {
        SessionRecord { id: self.id, payload: clone_bytes(&self.payload), expiry: self.expiry }
    }
}

/// An exact copy of a byte vector.
fn clone_bytes(v: &Vec<u8>) -> (r: Vec<u8>)
    ensures
        r@ == v@,
{
    let r = v.clone();
    proof {
        assert(r@ =~= v@);
    }
    r
}

/// Some record in `m` carries the id `id`.
pub open spec fn has_session(m: Seq<SessionModel>, id: u128) -> bool {
    exists|i: int| 0 <= i < m.len() && m[i].id == id
}

/// The row that carries `id`.
pub open spec fn index_of_session(m: Seq<SessionModel>, id: u128) -> int {
    choose|i: int| 0 <= i < m.len() && m[i].id == id
}

/// The table's invariant over its model: ids are pairwise distinct.
pub open spec fn sessions_wf(m: Seq<SessionModel>) -> bool {
    forall|i: int, j: int| 0 <= i < j < m.len() ==> (#[trigger] m[i].id) != (#[trigger] m[j].id)
}

/// The upsert transition: overwrite the row that carries the id, or append
/// a fresh row. No merge — the incoming payload and expiry replace the old
/// ones wholesale.
pub open spec fn save_spec(m: Seq<SessionModel>, r: SessionModel) -> Seq<SessionModel> {
    if has_session(m, r.id) {
        m.update(index_of_session(m, r.id), r)
    } else {
        m.push(r)
    }
}

/// What a lookup at instant `now` owes: the record that carries the id,
/// unless its expiry has passed — then it is absent, whether or not it is
/// still physically present.
pub open spec fn load_spec(m: Seq<SessionModel>, id: u128, now: u64) -> Option<SessionModel> {
    if has_session(m, id) && m[index_of_session(m, id)].expiry > now {
        Some(m[index_of_session(m, id)])
    } else {
        None
    }
}

/// The unconditional delete transition; deleting an absent id is a no-op.
pub open spec fn delete_spec(m: Seq<SessionModel>, id: u128) -> Seq<SessionModel> {
    if has_session(m, id) {
        m.remove(index_of_session(m, id))
    } else {
        m
    }
}

/// Holds of the rows a sweep at instant `now` keeps: expiry not yet passed.
pub open spec fn live_after(now: u64) -> spec_fn(SessionModel) -> bool {
    |r: SessionModel| r.expiry > now
}

/// The sweep transition: exactly the rows whose expiry has not passed at
/// `now` survive, in order.
pub open spec fn delete_expired_spec(m: Seq<SessionModel>, now: u64) -> Seq<SessionModel> {
    m.filter(live_after(now))
}

/// Expiring key-value table of session records.
pub struct SessionStore {
    records: Vec<SessionRecord>,
}

/// The models of a row of records.
spec fn models(rs: Seq<SessionRecord>) -> Seq<SessionModel> {
    rs.map_values(|r: SessionRecord| r@)
}

impl View for SessionStore {
    type V = Seq<SessionModel>;

    closed spec fn view(&self) -> Seq<SessionModel> {
        models(self.records@)
    }
}

impl SessionStore {
    /// The store is well formed.
    pub open spec fn inv(&self) -> bool {
        sessions_wf(self@)
    }

    /// An empty session table.
    pub fn new() -> (r: Self)
        ensures
            r.inv(),
            r@ == Seq::<SessionModel>::empty(),
    {
        let r = SessionStore { records: Vec::new() };
        proof {
            assert(r@ =~= Seq::<SessionModel>::empty());
        }
        r
    }

    /// The row index that carries `id`, if any.
    fn position_of(&self, id: u128) -> (r: Option<usize>)
        requires
            self.inv(),
        ensures
            match r {
                Some(i) => i < self@.len() && self@[i as int].id == id && i as int
                    == index_of_session(self@, id),
                None => !has_session(self@, id),
            },
    {
        let n = self.records.len();
        let mut i: usize = 0;
        while i < n
            invariant
                n == self.records.len(),
                0 <= i <= n,
                self.inv(),
                forall|j: int| 0 <= j < i ==> (#[trigger] self@[j].id) != id,
            decreases n - i,
        {
            if self.records[i].id == id {
                proof {
                    let k = index_of_session(self@, id);
                    assert(has_session(self@, id)) by {
                        assert(self@[i as int].id == id);
                    }
                    if k != i as int {
                        assert(self@[k].id == self@[i as int].id);
                    }
                }
                return Some(i);
            }
            i += 1;
        }
        None
    }

    /// Saves the record: insert if its id is absent, overwrite the payload
    /// and expiry if present.
    pub fn save(&mut self, record: SessionRecord)
        requires
            old(self).inv(),
        ensures
            final(self).inv(),
            final(self)@ == save_spec(old(self)@, record@),
    {
        let ghost model = record@;
        match self.position_of(record.id) {
            Some(i) => {
                self.records.set(i, record);
                proof {
                    assert(self@ =~= old(self)@.update(
                        index_of_session(old(self)@, model.id),
                        model,
                    ));
                }
            },
            None => {
                self.records.push(record);
                proof {
                    assert(self@ =~= old(self)@.push(model));
                }
            },
        }
    }

    /// Loads the record that carries `id`, unless its expiry has passed at
    /// `now` — an expired record is reported absent.
    pub fn load(&self, id: u128, now: u64) -> (r: Option<SessionRecord>)
        requires
            self.inv(),
        ensures
            match r {
                Some(rec) => load_spec(self@, id, now) == Some(rec@),
                None => load_spec(self@, id, now) is None,
            },
    {
        match self.position_of(id) {
            Some(i) => {
                if self.records[i].expiry > now {
                    Some(self.records[i].clone())
                } else {
                    None
                }
            },
            None => None,
        }
    }

    /// Deletes the record that carries `id`; deleting an absent id is not
    /// an error.
    pub fn delete(&mut self, id: u128)
        requires
            old(self).inv(),
        ensures
            final(self).inv(),
            final(self)@ == delete_spec(old(self)@, id),
    {
        match self.position_of(id) {
            Some(i) => {
                self.records.remove(i);
                proof {
                    assert(self@ =~= old(self)@.remove(index_of_session(old(self)@, id)));
                    lemma_remove_wf(old(self)@, index_of_session(old(self)@, id));
                }
            },
            None => {},
        }
    }

    /// Deletes every record whose expiry has passed at `now`, in one sweep;
    /// a sweep that matches nothing returns normally.
    pub fn delete_expired(&mut self, now: u64)
        requires
            old(self).inv(),
        ensures
            final(self).inv(),
            final(self)@ == delete_expired_spec(old(self)@, now),
    {
        let n = self.records.len();
        let mut kept: Vec<SessionRecord> = Vec::new();
        let mut i: usize = 0;
        proof {
            assert(old(self)@.take(0).filter(live_after(now)) =~= Seq::<SessionModel>::empty());
            assert(models(kept@) =~= Seq::<SessionModel>::empty());
        }
        while i < n
            invariant
                n == self.records.len(),
                0 <= i <= n,
                self == old(self),
                self.inv(),
                models(kept@) == old(self)@.take(i as int).filter(live_after(now)),
            decreases n - i,
        {
            let ghost prefix = old(self)@.take(i as int);
            let ghost elt = old(self)@[i as int];
            let ghost kept0 = kept@;
            proof {
                assert(elt == self.records@[i as int]@);
                prefix.lemma_filter_push(elt, live_after(now));
                assert(old(self)@.take(i + 1) =~= prefix.push(elt));
            }
            if self.records[i].expiry > now {
                let c = self.records[i].clone();
                let ghost cm = c@;
                kept.push(c);
                proof {
                    assert(cm == elt);
                    assert(models(kept@) =~= models(kept0).push(elt));
                    assert(models(kept@) == prefix.push(elt).filter(live_after(now)));
                }
            } else {
                proof {
                    assert(!live_after(now)(elt));
                    assert(models(kept@) == prefix.push(elt).filter(live_after(now)));
                }
            }
            i += 1;
        }
        self.records = kept;
        proof {
            assert(old(self)@.take(n as int) =~= old(self)@);
            lemma_filter_wf(old(self)@, live_after(now));
        }
    }
}

/// Saving a record and then loading its id at any instant before its
/// expiry returns exactly the record saved — same payload, byte for byte.
pub proof fn lemma_save_then_load(m: Seq<SessionModel>, r: SessionModel, now: u64)
    requires
        sessions_wf(m),
        r.expiry > now,
    ensures
        load_spec(save_spec(m, r), r.id, now) == Some(r),
{
    lemma_save_pins_id(m, r);
}

/// Saving a record whose expiry has already passed leaves its id invisible
/// to load, even though the row is physically present.
pub proof fn lemma_save_then_load_expired(m: Seq<SessionModel>, r: SessionModel, now: u64)
    requires
        sessions_wf(m),
        r.expiry <= now,
    ensures
        load_spec(save_spec(m, r), r.id, now) is None,
{
    lemma_save_pins_id(m, r);
}

/// A record whose expiry has passed at `now` is invisible to load at `now`,
/// whether or not an intervening sweep has removed it.
pub proof fn lemma_expired_invisible(m: Seq<SessionModel>, id: u128, now: u64)
    requires
        forall|i: int| 0 <= i < m.len() && (#[trigger] m[i].id) == id ==> m[i].expiry <= now,
    ensures
        load_spec(m, id, now) is None,
{
}

/// After a save, the saved record is the one row that carries its id.
proof fn lemma_save_pins_id(m: Seq<SessionModel>, r: SessionModel)
    requires
        sessions_wf(m),
    ensures
        sessions_wf(save_spec(m, r)),
        has_session(save_spec(m, r), r.id),
        save_spec(m, r)[index_of_session(save_spec(m, r), r.id)] == r,
{
    let m1 = save_spec(m, r);
    if has_session(m, r.id) {
        let i = index_of_session(m, r.id);
        assert(m1[i] == r);
        assert(has_session(m1, r.id));
        assert forall|j: int, k: int| 0 <= j < k < m1.len() implies (#[trigger] m1[j].id) != (
        #[trigger] m1[k].id) by {
            assert(m1[j].id == m[j].id && m1[k].id == m[k].id);
        }
        let w = index_of_session(m1, r.id);
        if w != i {
            assert(m1[w].id == m1[i].id);
        }
    } else {
        let i = m.len() as int;
        assert(m1[i] == r);
        assert(has_session(m1, r.id));
        assert forall|j: int, k: int| 0 <= j < k < m1.len() implies (#[trigger] m1[j].id) != (
        #[trigger] m1[k].id) by {
            if k < i {
                assert(m1[j].id == m[j].id && m1[k].id == m[k].id);
            } else {
                assert(m1[j].id == m[j].id && m1[k] == r);
                assert(!(m[j].id == r.id)) by {
                    if m[j].id == r.id {
                        assert(has_session(m, r.id));
                    }
                }
            }
        }
        let w = index_of_session(m1, r.id);
        if w != i {
            assert(m1[w].id == m1[i].id);
        }
    }
}

/// The sweep removes all and only the rows whose expiry has passed at call
/// time: every survivor was present before with its expiry still ahead,
/// and every row with its expiry still ahead survives.
pub proof fn lemma_sweep_exact(m: Seq<SessionModel>, now: u64)
    ensures
        forall|x: SessionModel| #[trigger]
            delete_expired_spec(m, now).contains(x) ==> m.contains(x) && x.expiry > now,
        forall|i: int|
            0 <= i < m.len() && (#[trigger] m[i]).expiry > now ==> delete_expired_spec(
                m,
                now,
            ).contains(m[i]),
{
    broadcast use Seq::lemma_filter_contains;
    broadcast use Seq::lemma_filter_pred;

    lemma_filter_contained(m, live_after(now));
    let f = delete_expired_spec(m, now);
    assert forall|x: SessionModel| #[trigger] f.contains(x) implies m.contains(x) && x.expiry
        > now by {
        let k = choose|k: int| 0 <= k < f.len() && f[k] == x;
        assert(live_after(now)(f[k]));
    }
}

/// Sweeping a second time, at the same instant or any earlier one, is a
/// no-op: every row the first sweep kept is still unexpired.
pub proof fn lemma_sweep_idempotent(m: Seq<SessionModel>, now: u64, then: u64)
    requires
        then <= now,
    ensures
        delete_expired_spec(delete_expired_spec(m, now), then) == delete_expired_spec(m, now),
{
    broadcast use Seq::lemma_filter_pred;

    let f = delete_expired_spec(m, now);
    assert forall|i: int| 0 <= i < f.len() implies live_after(then)(#[trigger] f[i]) by {
        assert(live_after(now)(f[i]));
    }
    lemma_filter_all(f, live_after(then));
}

/// Every element of a filtered sequence stood in the original.
proof fn lemma_filter_contained(m: Seq<SessionModel>, p: spec_fn(SessionModel) -> bool)
    ensures
        forall|x: SessionModel| #[trigger] m.filter(p).contains(x) ==> m.contains(x),
    decreases m.len(),
{
    broadcast use Seq::lemma_filter_push;

    if m.len() == 0 {
        reveal(Seq::filter);
    } else {
        let dl = m.drop_last();
        lemma_filter_contained(dl, p);
        assert(m =~= dl.push(m.last()));
        assert forall|x: SessionModel| #[trigger] m.filter(p).contains(x) implies m.contains(
            x,
        ) by {
            assert(dl.push(m.last()).filter(p).contains(x));
            if dl.filter(p).contains(x) {
                assert(dl.contains(x));
                let w = choose|w: int| 0 <= w < dl.len() && dl[w] == x;
                assert(m[w] == x);
            } else {
                assert(m[m.len() - 1] == x);
            }
        }
    }
}

/// Filtering by a predicate every element satisfies changes nothing.
proof fn lemma_filter_all(m: Seq<SessionModel>, p: spec_fn(SessionModel) -> bool)
    requires
        forall|i: int| 0 <= i < m.len() ==> p(#[trigger] m[i]),
    ensures
        m.filter(p) == m,
    decreases m.len(),
{
    broadcast use Seq::lemma_filter_push;

    if m.len() == 0 {
        reveal(Seq::filter);
        assert(m.filter(p) =~= m);
    } else {
        let dl = m.drop_last();
        lemma_filter_all(dl, p);
        assert(m =~= dl.push(m.last()));
        assert(dl.push(m.last()).filter(p) == dl.filter(p).push(m.last()));
    }
}

/// Removing a row keeps the remaining ids pairwise distinct.
proof fn lemma_remove_wf(m: Seq<SessionModel>, i: int)
    requires
        sessions_wf(m),
        0 <= i < m.len(),
    ensures
        sessions_wf(m.remove(i)),
{
    m.remove_ensures(i);
}

/// Filtering keeps the surviving ids pairwise distinct, and every survivor
/// was present before.
proof fn lemma_filter_wf(m: Seq<SessionModel>, p: spec_fn(SessionModel) -> bool)
    requires
        sessions_wf(m),
    ensures
        sessions_wf(m.filter(p)),
        forall|x: SessionModel| #[trigger] m.filter(p).contains(x) ==> m.contains(x),
    decreases m.len(),
{
    broadcast use Seq::lemma_filter_push;

    if m.len() == 0 {
        reveal(Seq::filter);
    } else {
        let dl = m.drop_last();
        let last = m.last();
        assert(sessions_wf(dl));
        lemma_filter_wf(dl, p);
        assert(m =~= dl.push(last));
        assert(m.filter(p) == dl.push(last).filter(p));
        if p(last) {
            let f = dl.filter(p);
            assert forall|k: int| 0 <= k < f.len() implies (#[trigger] f[k].id) != last.id by {
                assert(f.contains(f[k]));
                assert(dl.contains(f[k]));
                let w = choose|w: int| 0 <= w < dl.len() && dl[w] == f[k];
                assert(m[w].id != m[m.len() - 1].id);
            }
            assert(sessions_wf(f.push(last)));
            assert forall|x: SessionModel| #[trigger]
                m.filter(p).contains(x) implies m.contains(x) by {
                let k = choose|k: int| 0 <= k < f.push(last).len() && f.push(last)[k] == x;
                if k < f.len() {
                    assert(f.contains(x));
                    let w = choose|w: int| 0 <= w < dl.len() && dl[w] == x;
                    assert(m[w] == x);
                } else {
                    assert(m[m.len() - 1] == x);
                }
            }
        } else {
            assert forall|x: SessionModel| #[trigger]
                m.filter(p).contains(x) implies m.contains(x) by {
                assert(dl.filter(p).contains(x));
                assert(dl.contains(x));
                let w = choose|w: int| 0 <= w < dl.len() && dl[w] == x;
                assert(m[w] == x);
            }
        }
    }
}

} // verus!
