//! Durable notification store.
//!
//! Records are persisted in an embedded key-value tree, one entry per
//! notification: the key is the identifier's byte form, the value the
//! record's stored byte form.  Every write is flushed before the call
//! returns, so a restarted daemon can rebuild its schedule from the
//! store alone.  The tree itself is trusted at its interface: its
//! current contents are modelled as a map from key bytes to value
//! bytes, and each tree call is wrapped in a contract over that map.

use vstd::prelude::*;
use crate::error::StoreError;
use crate::notification::{spec_dec_record, spec_enc_record, NotificationSled, RecordView};
use crate::wire::{push_u128_le, spec_u128_le};

verus! {

/// The backing tree's handle (sled::Db), opaque to verification.
#[verifier::external_type_specification]
#[verifier::external_body]
pub struct ExDb(sled::Db);

/// The backing tree's error type (sled::Error), opaque to
/// verification; the store maps it to its own error before callers
/// see it.
#[verifier::external_type_specification]
#[verifier::external_body]
pub struct ExSledError(sled::Error);

/// What the backing tree currently holds: value bytes keyed by key
/// bytes.
pub uninterp spec fn db_contents(db: sled::Db) -> Map<Seq<u8>, Seq<u8>>;

/// A record whose stored byte form sits under some key of the map.
pub open spec fn stored_record(m: Map<Seq<u8>, Seq<u8>>, r: RecordView) -> bool {
    exists|k: Seq<u8>| #[trigger] m.dom().contains(k) && spec_dec_record(m[k]) == Some(r)
}

/// A record that appears in a listing.
pub open spec fn listed(v: Seq<NotificationSled>, r: RecordView) -> bool {
    exists|i: int| 0 <= i < v.len() && (#[trigger] v[i])@ == r
}

/// Each element of a listing decodes from its own key of the map:
/// no stored entry is listed twice.
pub open spec fn distinct_keyed(
    m: Map<Seq<u8>, Seq<u8>>,
    ks: Seq<Seq<u8>>,
    v: Seq<NotificationSled>,
) -> bool {
    &&& ks.len() == v.len()
    &&& forall|i: int|
        0 <= i < v.len() ==> m.dom().contains(#[trigger] ks[i]) && spec_dec_record(m[ks[i]])
            == Some(v[i]@)
    &&& forall|i: int, j: int| 0 <= i < j < v.len() ==> ks[i] != ks[j]
}

/// What a successful active listing is: exactly the well-formed
/// stored records still active at `now`, each from its own key.
pub open spec fn spec_active_listing(
    m: Map<Seq<u8>, Seq<u8>>,
    v: Seq<NotificationSled>,
    now: i64,
) -> bool {
    &&& forall|i: int|
        0 <= i < v.len() ==> stored_record(m, (#[trigger] v[i])@) && v[i]@.wf() && v[i]@.is_active(
            now,
        )
    &&& forall|rv: RecordView| #[trigger] stored_record(m, rv) && rv.is_active(now) ==> listed(v, rv)
    &&& exists|ks: Seq<Seq<u8>>| distinct_keyed(m, ks, v)
}

/// What a successful full listing is: every well-formed stored
/// record, each from its own key.
pub open spec fn spec_full_listing(m: Map<Seq<u8>, Seq<u8>>, v: Seq<NotificationSled>) -> bool {
    &&& forall|i: int| 0 <= i < v.len() ==> stored_record(m, (#[trigger] v[i])@) && v[i]@.wf()
    &&& forall|rv: RecordView| #[trigger] stored_record(m, rv) ==> listed(v, rv)
    &&& exists|ks: Seq<Seq<u8>>| distinct_keyed(m, ks, v)
}

/// Listing elements drawn from strictly increasing positions of a
/// duplicate-free pair sequence come each from their own key.
proof fn lemma_sources_give_distinct_keys(
    m: Map<Seq<u8>, Seq<u8>>,
    pairs: Seq<(Vec<u8>, Vec<u8>)>,
    ks: Seq<Seq<u8>>,
    srcs: Seq<int>,
    v: Seq<NotificationSled>,
)
    requires
        forall|p: int| 0 <= p < pairs.len() ==> m.contains_pair((#[trigger] pairs[p]).0@, pairs[p].1@),
        forall|p: int, q: int|
            0 <= p < q < pairs.len() ==> (#[trigger] pairs[p]).0@ != (#[trigger] pairs[q]).0@,
        ks.len() == v.len(),
        srcs.len() == v.len(),
        forall|k: int| 0 <= k < v.len() ==> 0 <= #[trigger] srcs[k] < pairs.len(),
        forall|k: int|
            0 <= k < v.len() ==> #[trigger] ks[k] == pairs[srcs[k]].0@ && spec_dec_record(
                pairs[srcs[k]].1@,
            ) == Some(v[k]@),
        forall|k1: int, k2: int| 0 <= k1 < k2 < v.len() ==> #[trigger] srcs[k1] < #[trigger] srcs[k2],
    ensures
        distinct_keyed(m, ks, v),
{
    assert forall|i: int| 0 <= i < v.len() implies m.dom().contains(#[trigger] ks[i])
        && spec_dec_record(m[ks[i]]) == Some(v[i]@) by {
        assert(m.contains_pair(pairs[srcs[i]].0@, pairs[srcs[i]].1@));
    }
    assert forall|i: int, j: int| 0 <= i < j < v.len() implies ks[i] != ks[j] by {
        assert(srcs[i] < srcs[j]);
        assert(pairs[srcs[i]].0@ != pairs[srcs[j]].0@);
    }
}

/// The persistent notification store.
pub struct SledStore {
    pub db: sled::Db,
}

impl SledStore {
    /// Relies on sled::open: opens the tree at `path`, creating it if
    /// absent; on success the handle serves the tree recovered from
    /// disk.
    #[verifier::external_body]
    fn open_db(path: &str) -> (r: Result<sled::Db, sled::Error>) {
        sled::open(std::path::Path::new(path))
    }

    /// Relies on sled::Config::temporary and Config::open: opens a
    /// fresh tree in a private scratch directory, so it starts empty.
    #[verifier::external_body]
    fn open_temp_db() -> (r: Result<sled::Db, sled::Error>)
        ensures
            match r {
                Ok(db) => db_contents(db) == Map::<Seq<u8>, Seq<u8>>::empty(),
                Err(_) => true,
            },
    {
        sled::Config::new().temporary(true).open()
    }

    /// Relies on sled::Tree::insert: sets `key` to `value`, leaving
    /// every other entry unchanged.
    #[verifier::external_body]
    fn raw_insert(&mut self, key: &Vec<u8>, value: &Vec<u8>) -> (r: Result<(), sled::Error>)
        ensures
            r is Ok ==> db_contents(final(self).db) == db_contents(old(self).db).insert(
                key@,
                value@,
            ),
    {
        match self.db.insert(key.as_slice(), value.as_slice()) {
            Ok(_) => Ok(()),
            Err(e) => Err(e),
        }
    }

    /// Relies on sled::Tree::remove: deletes the entry under `key`,
    /// leaving every other entry unchanged.  On failure the removal
    /// was applied at most once: no other entry is touched.
    #[verifier::external_body]
    fn raw_remove(&mut self, key: &Vec<u8>) -> (r: Result<(), sled::Error>)
        ensures
            r is Ok ==> db_contents(final(self).db) == db_contents(old(self).db).remove(key@),
            r is Err ==> db_contents(final(self).db) == db_contents(old(self).db) || db_contents(
                final(self).db,
            ) == db_contents(old(self).db).remove(key@),
    {
        match self.db.remove(key.as_slice()) {
            Ok(_) => Ok(()),
            Err(e) => Err(e),
        }
    }

    /// Relies on sled::Tree::get: returns the value stored under
    /// `key`, if any.
    #[verifier::external_body]
    fn raw_get(&self, key: &Vec<u8>) -> (r: Result<Option<Vec<u8>>, sled::Error>)
        ensures
            match r {
                Ok(Some(v)) => db_contents(self.db).contains_pair(key@, v@),
                Ok(None) => !db_contents(self.db).dom().contains(key@),
                Err(_) => true,
            },
    {
        match self.db.get(key.as_slice()) {
            Ok(Some(v)) => Ok(Some(v.to_vec())),
            Ok(None) => Ok(None),
            Err(e) => Err(e),
        }
    }

    /// Relies on sled::Tree::flush: forces all dirty buffers to disk.
    #[verifier::external_body]
    fn raw_flush(&self) -> (r: Result<(), sled::Error>) {
        match self.db.flush() {
            Ok(_) => Ok(()),
            Err(e) => Err(e),
        }
    }

    /// Relies on sled::Tree::iter: yields every key-value pair of the
    /// tree, each key exactly once.
    #[verifier::external_body]
    fn raw_pairs(&self) -> (r: Result<Vec<(Vec<u8>, Vec<u8>)>, sled::Error>)
        ensures
            match r {
                Ok(pairs) => {
                    &&& forall|i: int|
                        0 <= i < pairs@.len() ==> db_contents(self.db).contains_pair(
                            (#[trigger] pairs@[i]).0@,
                            pairs@[i].1@,
                        )
                    &&& forall|k: Seq<u8>|
                        #[trigger] db_contents(self.db).dom().contains(k) ==> exists|i: int|
                            0 <= i < pairs@.len() && (#[trigger] pairs@[i]).0@ == k
                    &&& forall|i: int, j: int|
                        0 <= i < j < pairs@.len() ==> (#[trigger] pairs@[i]).0@ != (
                        #[trigger] pairs@[j]).0@
                },
                Err(_) => true,
            },
    {
        let mut out: Vec<(Vec<u8>, Vec<u8>)> = Vec::new();
        for item in self.db.iter() {
            match item {
                Ok((k, v)) => out.push((k.to_vec(), v.to_vec())),
                Err(e) => {
                    return Err(e);
                },
            }
        }
        Ok(out)
    }

    /// Open the store at a filesystem path.
    pub fn new(path: &str) -> (r: Result<SledStore, StoreError>)
        ensures
            r is Err ==> r == Err::<SledStore, StoreError>(StoreError::Backend),
    {
        match Self::open_db(path) {
            Ok(db) => Ok(SledStore { db }),
            Err(_) => Err(StoreError::Backend),
        }
    }

    /// Open a scratch store that starts empty and leaves nothing
    /// behind.
    pub fn new_temporary() -> (r: Result<SledStore, StoreError>)
        ensures
            match r {
                Ok(s) => db_contents(s.db) == Map::<Seq<u8>, Seq<u8>>::empty(),
                Err(e) => e == StoreError::Backend,
            },
    {
        match Self::open_temp_db() {
            Ok(db) => Ok(SledStore { db }),
            Err(_) => Err(StoreError::Backend),
        }
    }

    /// The byte form of a record key.
    fn key_bytes(uuid: u128) -> (r: Vec<u8>)
        ensures
            r@ == spec_u128_le(uuid),
    {
        let mut key: Vec<u8> = Vec::new();
        push_u128_le(&mut key, uuid);
        key
    }

    /// Persist `notification` under `uuid` and flush.  On success the
    /// store holds its byte form under the identifier's key.
    pub fn insert(&mut self, uuid: u128, notification: &NotificationSled) -> (r: Result<
        (),
        StoreError,
    >)
        ensures
            r is Ok ==> db_contents(final(self).db) == db_contents(old(self).db).insert(
                spec_u128_le(uuid),
                spec_enc_record(notification@),
            ),
            r is Err ==> r == Err::<(), StoreError>(StoreError::Backend),
    {
        let key = Self::key_bytes(uuid);
        let value = notification.encode();
        match self.raw_insert(&key, &value) {
            Ok(_) => {},
            Err(_) => {
                return Err(StoreError::Backend);
            },
        }
        match self.raw_flush() {
            Ok(_) => Ok(()),
            Err(_) => Err(StoreError::Backend),
        }
    }

    /// Look a record up by identifier.  Absent keys yield nothing; a
    /// present value that is not a well-formed stored record is
    /// reported as corrupt.
    pub fn get(&self, uuid: u128) -> (r: Result<Option<NotificationSled>, StoreError>)
        ensures
            match r {
                Ok(Some(n)) => {
                    &&& db_contents(self.db).dom().contains(spec_u128_le(uuid))
                    &&& spec_dec_record(db_contents(self.db)[spec_u128_le(uuid)]) == Some(n@)
                    &&& n@.wf()
                },
                Ok(None) => !db_contents(self.db).dom().contains(spec_u128_le(uuid)),
                Err(e) => e == StoreError::Backend || (e == StoreError::Corrupt && db_contents(
                    self.db,
                ).dom().contains(spec_u128_le(uuid)) && spec_dec_record(
                    db_contents(self.db)[spec_u128_le(uuid)],
                ) is None),
            },
    {
        let key = Self::key_bytes(uuid);
        match self.raw_get(&key) {
            Ok(Some(value)) => match NotificationSled::decode(&value) {
                Some(n) => Ok(Some(n)),
                None => Err(StoreError::Corrupt),
            },
            Ok(None) => Ok(None),
            Err(_) => Err(StoreError::Backend),
        }
    }

    /// Remove the record under `uuid`, if any, and flush.  Even on
    /// failure no entry other than the one under `uuid` is touched.
    pub fn delete(&mut self, uuid: u128) -> (r: Result<(), StoreError>)
        ensures
            r is Ok ==> db_contents(final(self).db) == db_contents(old(self).db).remove(
                spec_u128_le(uuid),
            ),
            r is Err ==> r == Err::<(), StoreError>(StoreError::Backend) && (db_contents(
                final(self).db,
            ) == db_contents(old(self).db) || db_contents(final(self).db) == db_contents(
                old(self).db,
            ).remove(spec_u128_le(uuid))),
    {
        let key = Self::key_bytes(uuid);
        match self.raw_remove(&key) {
            Ok(_) => {},
            Err(_) => {
                return Err(StoreError::Backend);
            },
        }
        match self.raw_flush() {
            Ok(_) => Ok(()),
            Err(_) => Err(StoreError::Backend),
        }
    }

    /// Persist a freshly built record under its own identifier and
    /// hand the identifier back.
    pub fn create_notification(&mut self, notification: &NotificationSled) -> (r: Result<
        u128,
        StoreError,
    >)
        ensures
            match r {
                Ok(id) => id == notification@.id && db_contents(final(self).db) == db_contents(
                    old(self).db,
                ).insert(spec_u128_le(notification@.id), spec_enc_record(notification@)),
                Err(e) => e == StoreError::Backend,
            },
    {
        let uuid = notification.get_id();
        match self.insert(uuid, notification) {
            Ok(_) => Ok(uuid),
            Err(e) => Err(e),
        }
    }

    /// Every stored record that is still active at `now`: its work or
    /// break phase has not yet ended.  The listing is exactly the
    /// active well-formed stored records, each stored entry at most
    /// once; a stored value that decodes to no record is reported as
    /// corrupt.
    pub fn list_notifications(&self, now: i64) -> (r: Result<Vec<NotificationSled>, StoreError>)
        ensures
            match r {
                Ok(v) => spec_active_listing(db_contents(self.db), v@, now),
                Err(e) => e == StoreError::Backend || e == StoreError::Corrupt,
            },
    {
        let pairs = match self.raw_pairs() {
            Ok(pairs) => pairs,
            Err(_) => {
                return Err(StoreError::Backend);
            },
        };
        let ghost m = db_contents(self.db);
        let mut out: Vec<NotificationSled> = Vec::new();
        let ghost mut ks: Seq<Seq<u8>> = Seq::empty();
        let ghost mut srcs: Seq<int> = Seq::empty();
        let mut i: usize = 0;
        while i < pairs.len()
            invariant
                i <= pairs@.len(),
                m == db_contents(self.db),
                forall|p: int|
                    0 <= p < pairs@.len() ==> m.contains_pair((#[trigger] pairs@[p]).0@, pairs@[p].1@),
                forall|j: int|
                    0 <= j < out@.len() ==> stored_record(m, (#[trigger] out@[j])@) && out@[j]@.wf()
                        && out@[j]@.is_active(now),
                forall|p: int|
                    0 <= p < i ==> match spec_dec_record((#[trigger] pairs@[p]).1@) {
                        Some(rv) => rv.is_active(now) ==> listed(out@, rv),
                        None => false,
                    },
                ks.len() == out@.len(),
                srcs.len() == out@.len(),
                forall|k: int| 0 <= k < out@.len() ==> 0 <= #[trigger] srcs[k] < i,
                forall|k: int|
                    0 <= k < out@.len() ==> #[trigger] ks[k] == pairs@[srcs[k]].0@ && spec_dec_record(
                        pairs@[srcs[k]].1@,
                    ) == Some(out@[k]@),
                forall|k1: int, k2: int|
                    0 <= k1 < k2 < out@.len() ==> #[trigger] srcs[k1] < #[trigger] srcs[k2],
            decreases pairs@.len() - i,
        {
            let ghost prev = out@;
            match NotificationSled::decode(&pairs[i].1) {
                Some(n) => {
                    if n.is_active(now) {
                        proof {
                            assert(m.contains_pair(pairs@[i as int].0@, pairs@[i as int].1@));
                            assert(stored_record(m, n@));
                            ks = ks.push(pairs@[i as int].0@);
                            srcs = srcs.push(i as int);
                        }
                        out.push(n);
                        proof {
                            assert(forall|j: int|
                                0 <= j < prev.len() ==> out@[j] == #[trigger] prev[j]);
                            assert(forall|rv: RecordView| listed(prev, rv) ==> listed(out@, rv));
                            assert(out@[out@.len() - 1]@ == n@);
                        }
                    }
                },
                None => {
                    return Err(StoreError::Corrupt);
                },
            }
            i = i + 1;
        }
        proof {
            assert forall|rv: RecordView|
                #[trigger] stored_record(m, rv) && rv.is_active(now) implies listed(out@, rv) by {
                let k = choose|k: Seq<u8>|
                    #[trigger] m.dom().contains(k) && spec_dec_record(m[k]) == Some(rv);
                let p = choose|p: int| 0 <= p < pairs@.len() && (#[trigger] pairs@[p]).0@ == k;
                assert(m.contains_pair(pairs@[p].0@, pairs@[p].1@));
                assert(pairs@[p].1@ == m[k]);
            }
            lemma_sources_give_distinct_keys(m, pairs@, ks, srcs, out@);
        }
        Ok(out)
    }

    /// Every stored record, active or not: the full history, each
    /// stored entry at most once.
    pub fn list_all_notifications(&self) -> (r: Result<Vec<NotificationSled>, StoreError>)
        ensures
            match r {
                Ok(v) => spec_full_listing(db_contents(self.db), v@),
                Err(e) => e == StoreError::Backend || e == StoreError::Corrupt,
            },
    {
        let pairs = match self.raw_pairs() {
            Ok(pairs) => pairs,
            Err(_) => {
                return Err(StoreError::Backend);
            },
        };
        let ghost m = db_contents(self.db);
        let mut out: Vec<NotificationSled> = Vec::new();
        let ghost mut ks: Seq<Seq<u8>> = Seq::empty();
        let ghost mut srcs: Seq<int> = Seq::empty();
        let mut i: usize = 0;
        while i < pairs.len()
            invariant
                i <= pairs@.len(),
                m == db_contents(self.db),
                forall|p: int|
                    0 <= p < pairs@.len() ==> m.contains_pair((#[trigger] pairs@[p]).0@, pairs@[p].1@),
                forall|j: int|
                    0 <= j < out@.len() ==> stored_record(m, (#[trigger] out@[j])@) && out@[j]@.wf(),
                forall|p: int|
                    0 <= p < i ==> match spec_dec_record((#[trigger] pairs@[p]).1@) {
                        Some(rv) => listed(out@, rv),
                        None => false,
                    },
                ks.len() == out@.len(),
                srcs.len() == out@.len(),
                forall|k: int| 0 <= k < out@.len() ==> 0 <= #[trigger] srcs[k] < i,
                forall|k: int|
                    0 <= k < out@.len() ==> #[trigger] ks[k] == pairs@[srcs[k]].0@ && spec_dec_record(
                        pairs@[srcs[k]].1@,
                    ) == Some(out@[k]@),
                forall|k1: int, k2: int|
                    0 <= k1 < k2 < out@.len() ==> #[trigger] srcs[k1] < #[trigger] srcs[k2],
            decreases pairs@.len() - i,
        {
            let ghost prev = out@;
            match NotificationSled::decode(&pairs[i].1) {
                Some(n) => {
                    proof {
                        assert(m.contains_pair(pairs@[i as int].0@, pairs@[i as int].1@));
                        assert(stored_record(m, n@));
                        ks = ks.push(pairs@[i as int].0@);
                        srcs = srcs.push(i as int);
                    }
                    out.push(n);
                    proof {
                        assert(forall|j: int| 0 <= j < prev.len() ==> out@[j] == #[trigger] prev[j]);
                        assert(forall|rv: RecordView| listed(prev, rv) ==> listed(out@, rv));
                        assert(out@[out@.len() - 1]@ == n@);
                    }
                },
                None => {
                    return Err(StoreError::Corrupt);
                },
            }
            i = i + 1;
        }
        proof {
            assert forall|rv: RecordView| #[trigger] stored_record(m, rv) implies listed(out@, rv) by {
                let k = choose|k: Seq<u8>|
                    #[trigger] m.dom().contains(k) && spec_dec_record(m[k]) == Some(rv);
                let p = choose|p: int| 0 <= p < pairs@.len() && (#[trigger] pairs@[p]).0@ == k;
                assert(m.contains_pair(pairs@[p].0@, pairs@[p].1@));
                assert(pairs@[p].1@ == m[k]);
            }
            lemma_sources_give_distinct_keys(m, pairs@, ks, srcs, out@);
        }
        Ok(out)
    }

    /// The notifications still pending as of this call's clock
    /// reading: what daemon startup re-schedules.  The result is an
    /// exact active listing for one clock reading; which reading the
    /// clock gave is not promised.
    pub fn list_active_now(&self) -> (r: Result<Vec<NotificationSled>, StoreError>)
        ensures
            match r {
                Ok(v) => exists|now: i64| spec_active_listing(db_contents(self.db), v@, now),
                Err(e) => e == StoreError::Backend || e == StoreError::Corrupt,
            },
    {
        let now = crate::notification::now_seconds();
        let r = self.list_notifications(now);
        proof {
            match r {
                Ok(ref v) => {
                    assert(spec_active_listing(db_contents(self.db), v@, now));
                },
                Err(_) => {
                },
            }
        }
        r
    }

    /// The creation time for a queued notification: right after the
    /// last active notification ends, or `now` when none is pending.
    pub fn get_time_for_queue_notification(&self, now: i64) -> (r: Result<i64, StoreError>)
        ensures
            match r {
                Ok(t) => {
                    &&& t >= now
                    &&& forall|rv: RecordView|
                        #[trigger] stored_record(db_contents(self.db), rv) && rv.is_active(now)
                            ==> rv.break_expired_at <= t
                    &&& (t == now || exists|rv: RecordView|
                        #[trigger] stored_record(db_contents(self.db), rv) && rv.is_active(now)
                            && rv.break_expired_at == t)
                },
                Err(e) => e == StoreError::Backend || e == StoreError::Corrupt,
            },
    {
        let active = match self.list_notifications(now) {
            Ok(v) => v,
            Err(e) => {
                return Err(e);
            },
        };
        let mut t: i64 = now;
        let mut i: usize = 0;
        while i < active.len()
            invariant
                i <= active@.len(),
                t >= now,
                forall|j: int|
                    0 <= j < active@.len() ==> stored_record(
                        db_contents(self.db),
                        (#[trigger] active@[j])@,
                    ) && active@[j]@.is_active(now),
                forall|j: int| 0 <= j < i ==> (#[trigger] active@[j])@.break_expired_at <= t,
                t == now || exists|rv: RecordView|
                    #[trigger] stored_record(db_contents(self.db), rv) && rv.is_active(now)
                        && rv.break_expired_at == t,
            decreases active@.len() - i,
        {
            if active[i].break_expired_at > t {
                t = active[i].break_expired_at;
                proof {
                    assert(stored_record(db_contents(self.db), active@[i as int]@));
                }
            }
            i = i + 1;
        }
        proof {
            assert forall|rv: RecordView|
                #[trigger] stored_record(db_contents(self.db), rv) && rv.is_active(now)
                    implies rv.break_expired_at <= t by {
                assert(listed(active@, rv));
                let j = choose|j: int| 0 <= j < active@.len() && (#[trigger] active@[j])@ == rv;
            }
        }
        Ok(t)
    }
}

} // verus!
