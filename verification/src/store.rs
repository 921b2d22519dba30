//! The record store: a key-value store holding each finished job wrapped in a
//! time-boxed envelope. Reads are lazily expiring (an expired record reads as
//! absent and its key is dropped), and a periodic full-scan sweep evicts every
//! expired record.
//!
//! The store is backed by a `sled` database. The backing tree is reached only
//! through the trusted wrappers below, whose contracts speak of `db_view`, the
//! tree's contents as a map from byte keys to byte values; all TTL logic on
//! top of them is verified.

use vstd::prelude::*;
use vstd::utf8::encode_utf8;
use crate::codec::{
    decode_record, encode_record, spec_decode, spec_encode, spec_record_fits, SpecRecord,
    ValueWithTtl,
};
use crate::task::{SftpTask, SpecTask};

verus! {

/// How long a terminal job record is kept: seven days.
pub const DEFAULT_RECORD_TTL_SECS: u64 = 60 * 60 * 24 * 7;

/// How often the eviction sweep runs, independent of read traffic.
pub const SWEEP_INTERVAL_SECS: u64 = 60 * 60 * 12;

/// Failures surfaced by the record store: the storage engine refused a write,
/// or a full scan could not be completed.
#[derive(Clone, Copy, Debug, PartialEq, Eq)]
pub enum StoreError {
    Persist,
    Scan,
}

#[verifier::external_type_specification]
#[verifier::external_body]
pub struct ExSledDb(sled::Db);

#[verifier::external_type_specification]
#[verifier::external_body]
pub struct ExSledError(sled::Error);

/// The contents of a backing tree: a map from byte keys to byte values.
pub uninterp spec fn db_view(db: sled::Db) -> Map<Seq<u8>, Seq<u8>>;

/// A handle on the backing key-value tree. Held exclusively: every operation
/// that can change the contents takes the store by mutable reference.
pub struct Store {
    db: sled::Db,
}

impl View for Store {
    type V = Map<Seq<u8>, Seq<u8>>;

    closed spec fn view(&self) -> Map<Seq<u8>, Seq<u8>> {
        db_view(self.db)
    }
}

impl Store {
    /// Wraps an opened database.
    pub fn new(db: sled::Db) -> (s: Store)
        ensures
            s@ == db_view(db),
    {
        Store { db }
    }
}

/// Relies on `sled::Tree::insert` (reached through `Db`): on success the key
/// now holds exactly the given value; on failure this single-key write either
/// did not happen or had already landed.
#[verifier::external_body]
fn db_insert(store: &mut Store, key: &[u8], value: &Vec<u8>) -> (r: Result<(), sled::Error>)
    ensures
        r is Ok ==> db_view(final(store).db) == db_view(old(store).db).insert(key@, value@),
        r is Err ==> db_view(final(store).db) == db_view(old(store).db) || db_view(
            final(store).db,
        ) == db_view(old(store).db).insert(key@, value@),
{
    match store.db.insert(key, value.as_slice()) {
        Ok(_) => Ok(()),
        Err(e) => Err(e),
    }
}

/// Relies on `sled::Tree::get` (reached through `Db`): returns the value
/// stored under the key, or nothing where the key is absent.
#[verifier::external_body]
fn db_get(store: &Store, key: &[u8]) -> (r: Result<Option<Vec<u8>>, sled::Error>)
    ensures
        (r matches Ok(Some(v)) ==> db_view(store.db).dom().contains(key@) && v@ == db_view(
            store.db,
        )[key@]),
        (r matches Ok(None) ==> !db_view(store.db).dom().contains(key@)),
{
    match store.db.get(key) {
        Ok(Some(v)) => Ok(Some(v.to_vec())),
        Ok(None) => Ok(None),
        Err(e) => Err(e),
    }
}

/// Relies on `sled::Tree::remove` (reached through `Db`): on success the key
/// is gone; on failure this single-key delete either did not happen or had
/// already landed.
#[verifier::external_body]
fn db_remove(store: &mut Store, key: &[u8]) -> (r: Result<(), sled::Error>)
    ensures
        r is Ok ==> db_view(final(store).db) == db_view(old(store).db).remove(key@),
        r is Err ==> db_view(final(store).db) == db_view(old(store).db) || db_view(
            final(store).db,
        ) == db_view(old(store).db).remove(key@),
{
    match store.db.remove(key) {
        Ok(_) => Ok(()),
        Err(e) => Err(e),
    }
}

/// Relies on `sled::Tree::iter` (reached through `Db`): with the handle held
/// exclusively, the iterator yields every stored pair exactly once; any
/// storage fault surfaces as an erroneous item.
#[verifier::external_body]
fn db_entries(store: &Store) -> (r: Result<Vec<(Vec<u8>, Vec<u8>)>, sled::Error>)
    ensures
        (r matches Ok(es) ==> {
            &&& forall|j: int|
                0 <= j < es@.len() ==> db_view(store.db).contains_pair(
                    #[trigger] es@[j].0@,
                    es@[j].1@,
                )
            &&& forall|k: Seq<u8>|
                db_view(store.db).dom().contains(k) ==> exists|j: int|
                    0 <= j < es@.len() && #[trigger] es@[j].0@ == k
            &&& forall|j1: int, j2: int|
                0 <= j1 < j2 < es@.len() ==> #[trigger] es@[j1].0@ != #[trigger] es@[j2].0@
        }),
{
    let mut out = Vec::new();
    for item in store.db.iter() {
        match item {
            Ok((k, v)) => out.push((k.to_vec(), v.to_vec())),
            Err(e) => {
                return Err(e);
            },
        }
    }
    Ok(out)
}

/// Relies on `std::time::SystemTime::now`: the wall clock, read as whole
/// seconds since the Unix epoch (zero where the clock reads earlier than the
/// epoch). Nothing is assumed of the value.
#[verifier::external_body]
pub fn now_ts() -> u64 {
    match std::time::SystemTime::now().duration_since(std::time::UNIX_EPOCH) {
        Ok(d) => d.as_secs(),
        Err(_) => 0,
    }
}

/// The absolute expiry of a record written at `now` with the given time to
/// live, saturating at the largest representable time.
pub open spec fn spec_expiry(now: u64, ttl_secs: u64) -> u64 {
    if now + ttl_secs <= u64::MAX {
        (now + ttl_secs) as u64
    } else {
        u64::MAX
    }
}

/// The envelope that a write at time `now` stores.
pub open spec fn stored_record(t: SpecTask, now: u64, ttl_secs: u64) -> SpecRecord {
    SpecRecord { expires_at: spec_expiry(now, ttl_secs), data: t }
}

/// What a lookup of key `k` observes in contents `m` at time `now`: the
/// payload of a stored envelope that decodes and has not expired, nothing
/// otherwise.
pub open spec fn spec_lookup(m: Map<Seq<u8>, Seq<u8>>, k: Seq<u8>, now: u64) -> Option<SpecTask> {
    if m.dom().contains(k) {
        match spec_decode(m[k]) {
            Some(rec) => if now < rec.expires_at {
                Some(rec.data)
            } else {
                None
            },
            None => None,
        }
    } else {
        None
    }
}

/// True of a stored value that decodes to an envelope already expired at
/// `now`. A value that does not decode is never expired: the sweep must not
/// evict what it cannot read.
pub open spec fn expired_value(v: Seq<u8>, now: u64) -> bool {
    match spec_decode(v) {
        Some(rec) => rec.expires_at <= now,
        None => false,
    }
}

/// The contents after a full sweep at time `now`: exactly the entries that
/// are not expired.
pub open spec fn swept_view(m: Map<Seq<u8>, Seq<u8>>, now: u64) -> Map<Seq<u8>, Seq<u8>> {
    Map::new(
        |k: Seq<u8>| m.dom().contains(k) && !expired_value(m[k], now),
        |k: Seq<u8>| m[k],
    )
}

/// Writes `value` under `key` with an absolute expiry of `now + ttl_secs`,
/// overwriting any prior record.
pub fn put_at(store: &mut Store, key: &str, value: &SftpTask, ttl_secs: u64, now: u64) -> (r:
    Result<(), StoreError>)
    ensures
        spec_record_fits(stored_record(value@, now, ttl_secs)),
        r is Ok ==> final(store)@ == old(store)@.insert(
            encode_utf8(key@),
            spec_encode(stored_record(value@, now, ttl_secs)),
        ),
        r is Err ==> final(store)@ == old(store)@ || final(store)@ == old(store)@.insert(
            encode_utf8(key@),
            spec_encode(stored_record(value@, now, ttl_secs)),
        ),
{
    let expires_at = if now <= u64::MAX - ttl_secs {
        now + ttl_secs
    } else {
        u64::MAX
    };
    let record = ValueWithTtl { expires_at, data: value.clone_task() };
    let encoded = encode_record(&record);
    match db_insert(store, key.as_bytes(), &encoded) {
        Ok(()) => Ok(()),
        Err(_) => Err(StoreError::Persist),
    }
}

/// Reads the record under `key` as of time `now`. A record whose expiry has
/// passed reads as absent and its key is dropped from the store; a live
/// record is returned and the store is left unchanged. A storage fault reads
/// as absent.
pub fn get_at(store: &mut Store, key: &str, now: u64) -> (r: Option<SftpTask>)
    ensures
        (r matches Some(t) ==> spec_lookup(old(store)@, encode_utf8(key@), now) == Some(t@)),
        spec_lookup(old(store)@, encode_utf8(key@), now) is None ==> r is None,
        r is Some ==> final(store)@ == old(store)@,
        final(store)@ == old(store)@ || final(store)@ == old(store)@.remove(encode_utf8(key@)),
        final(store)@ != old(store)@ ==> expired_value(old(store)@[encode_utf8(key@)], now),
{
    let raw = match db_get(store, key.as_bytes()) {
        Ok(Some(v)) => v,
        Ok(None) => {
            return None;
        },
        Err(_) => {
            return None;
        },
    };
    match decode_record(&raw) {
        Some(record) => {
            if now < record.expires_at {
                Some(record.data)
            } else {
                let _ = db_remove(store, key.as_bytes());
                None
            }
        },
        None => None,
    }
}

spec fn processed(es: Seq<(Vec<u8>, Vec<u8>)>, i: int, k: Seq<u8>) -> bool {
    exists|j: int| 0 <= j < i && #[trigger] es[j].0@ == k
}

spec fn partial_swept(m: Map<Seq<u8>, Seq<u8>>, now: u64, es: Seq<(Vec<u8>, Vec<u8>)>, i: int) -> Map<
    Seq<u8>,
    Seq<u8>,
> {
    Map::new(
        |k: Seq<u8>| m.dom().contains(k) && !(expired_value(m[k], now) && processed(es, i, k)),
        |k: Seq<u8>| m[k],
    )
}

/// Scans the whole store as of time `now` and deletes every record whose
/// expiry has passed. A value that does not decode is skipped, never evicted,
/// and never stops the scan. On a storage fault the sweep stops early: what
/// remains is a subset of what was there, every entry unchanged, and only
/// expired records have been dropped.
pub fn sweep_at(store: &mut Store, now: u64) -> (r: Result<(), StoreError>)
    ensures
        r is Ok ==> final(store)@ == swept_view(old(store)@, now),
        forall|k: Seq<u8>|
            #[trigger] final(store)@.dom().contains(k) ==> old(store)@.dom().contains(k)
                && final(store)@[k] == old(store)@[k],
        forall|k: Seq<u8>|
            #[trigger] old(store)@.dom().contains(k) && !final(store)@.dom().contains(k)
                ==> expired_value(old(store)@[k], now),
{
    let ghost m0 = store@;
    let es = match db_entries(store) {
        Ok(es) => es,
        Err(_) => {
            return Err(StoreError::Scan);
        },
    };
    let mut i: usize = 0;
    while i < es.len()
        invariant
            i <= es@.len(),
            m0 == old(store)@,
            forall|j: int|
                0 <= j < es@.len() ==> m0.contains_pair(#[trigger] es@[j].0@, es@[j].1@),
            forall|k: Seq<u8>|
                m0.dom().contains(k) ==> exists|j: int|
                    0 <= j < es@.len() && #[trigger] es@[j].0@ == k,
            store@ =~= partial_swept(m0, now, es@, i as int),
        decreases es@.len() - i,
    {
        let value = &es[i].1;
        let expired = match decode_record(value) {
            Some(record) => record.expires_at <= now,
            None => false,
        };
        proof {
            lemma_partial_swept_step(m0, now, es@, i as int);
        }
        if expired {
            let key = &es[i].0;
            match db_remove(store, key.as_slice()) {
                Ok(()) => {
                    proof {
                        assert(store@ =~= partial_swept(m0, now, es@, i + 1 as int));
                    }
                },
                Err(_) => {
                    proof {
                        let p = partial_swept(m0, now, es@, i as int);
                        let ki = es@[i as int].0@;
                        assert(m0.contains_pair(ki, es@[i as int].1@));
                        assert(expired_value(m0[ki], now));
                        assert forall|k: Seq<u8>| #[trigger] store@.dom().contains(k) implies m0.dom().contains(
                            k,
                        ) && store@[k] == m0[k] by {
                            assert(p.dom().contains(k));
                        }
                        assert forall|k: Seq<u8>|
                            #[trigger] m0.dom().contains(k) && !store@.dom().contains(k) implies expired_value(
                            m0[k],
                            now,
                        ) by {
                            if p.dom().contains(k) {
                                assert(k == ki);
                            }
                        }
                    }
                    return Err(StoreError::Persist);
                },
            }
        } else {
            proof {
                assert(store@ =~= partial_swept(m0, now, es@, i + 1 as int));
            }
        }
        i = i + 1;
    }
    proof {
        assert(store@ =~= swept_view(m0, now));
    }
    Ok(())
}

proof fn lemma_processed_step(es: Seq<(Vec<u8>, Vec<u8>)>, i: int, k: Seq<u8>)
    requires
        0 <= i < es.len(),
    ensures
        processed(es, i + 1, k) <==> (processed(es, i, k) || es[i].0@ == k),
{
    if processed(es, i + 1, k) {
        let j = choose|j: int| 0 <= j < i + 1 && #[trigger] es[j].0@ == k;
        if j < i {
            assert(processed(es, i, k));
        } else {
            assert(es[i].0@ == k);
        }
    }
    if es[i].0@ == k {
        assert(0 <= i < i + 1 && es[i].0@ == k);
        assert(processed(es, i + 1, k));
    }
}

proof fn lemma_partial_swept_step(
    m: Map<Seq<u8>, Seq<u8>>,
    now: u64,
    es: Seq<(Vec<u8>, Vec<u8>)>,
    i: int,
)
    requires
        0 <= i < es.len(),
    ensures
        expired_value(m[es[i].0@], now) ==> partial_swept(m, now, es, i + 1) =~= partial_swept(
            m,
            now,
            es,
            i,
        ).remove(es[i].0@),
        !expired_value(m[es[i].0@], now) ==> partial_swept(m, now, es, i + 1) =~= partial_swept(
            m,
            now,
            es,
            i,
        ),
{
    assert forall|k: Seq<u8>| true implies (processed(es, i + 1, k) <==> (processed(es, i, k)
        || es[i].0@ == k)) by {
        lemma_processed_step(es, i, k);
    }
}

/// Law: membership after a sweep. A key survives the sweep exactly when it
/// was present and its value is not an expired envelope.
pub proof fn lemma_swept_membership(m: Map<Seq<u8>, Seq<u8>>, now: u64, k: Seq<u8>)
    ensures
        swept_view(m, now).dom().contains(k) <==> m.dom().contains(k) && !expired_value(
            m[k],
            now,
        ),
        swept_view(m, now).dom().contains(k) ==> swept_view(m, now)[k] == m[k],
{
}

/// Law: a record written with a positive time to live is returned unchanged
/// by an immediate lookup. (The one clock value excluded is the largest
/// representable second, at which any record is already beyond saturation.)
pub proof fn lemma_put_then_get(
    m: Map<Seq<u8>, Seq<u8>>,
    k: Seq<u8>,
    t: SpecTask,
    ttl_secs: u64,
    now: u64,
)
    requires
        spec_record_fits(stored_record(t, now, ttl_secs)),
        ttl_secs > 0,
        now < u64::MAX,
    ensures
        spec_lookup(
            m.insert(k, spec_encode(stored_record(t, now, ttl_secs))),
            k,
            now,
        ) == Some(t),
{
    crate::codec::lemma_encode_then_decode(stored_record(t, now, ttl_secs));
}

/// Law: once its expiry time has passed, a stored record is no longer
/// returned by a lookup.
pub proof fn lemma_expired_lookup(m: Map<Seq<u8>, Seq<u8>>, k: Seq<u8>, later: u64)
    requires
        m.dom().contains(k),
        expired_value(m[k], later),
    ensures
        spec_lookup(m, k, later) is None,
{
}

/// Writes `value` under `key`, expiring `ttl_secs` from the present moment
/// read off the wall clock.
pub fn insert_with_ttl(store: &mut Store, key: &str, value: &SftpTask, ttl_secs: u64) -> (r:
    Result<(), StoreError>)
    ensures
        exists|now: u64|
            {
                let enc = spec_encode(#[trigger] stored_record(value@, now, ttl_secs));
                &&& spec_record_fits(stored_record(value@, now, ttl_secs))
                &&& (r is Ok ==> final(store)@ == old(store)@.insert(encode_utf8(key@), enc))
                &&& (r is Err ==> final(store)@ == old(store)@ || final(store)@ == old(store)@.insert(
                    encode_utf8(key@),
                    enc,
                ))
            },
{
    let now = now_ts();
    let r = put_at(store, key, value, ttl_secs, now);
    r
}

/// Reads the record under `key` as of the present moment read off the wall
/// clock, dropping it where it has expired.
pub fn get_if_not_expired(store: &mut Store, key: &str) -> (r: Option<SftpTask>)
    ensures
        exists|now: u64|
            {
                &&& (r matches Some(t) ==> #[trigger] spec_lookup(
                    old(store)@,
                    encode_utf8(key@),
                    now,
                ) == Some(t@))
                &&& (spec_lookup(old(store)@, encode_utf8(key@), now) is None ==> r is None)
                &&& (final(store)@ != old(store)@ ==> expired_value(
                    old(store)@[encode_utf8(key@)],
                    now,
                ))
            },
        r is Some ==> final(store)@ == old(store)@,
        final(store)@ == old(store)@ || final(store)@ == old(store)@.remove(encode_utf8(key@)),
{
    let now = now_ts();
    let r = get_at(store, key, now);
    r
}

/// Scans the whole store and deletes every record expired as of the present
/// moment read off the wall clock.
pub fn sweep_expired(store: &mut Store) -> (r: Result<(), StoreError>)
    ensures
        r is Ok ==> exists|now: u64| final(store)@ == #[trigger] swept_view(old(store)@, now),
        forall|k: Seq<u8>|
            #[trigger] final(store)@.dom().contains(k) ==> old(store)@.dom().contains(k)
                && final(store)@[k] == old(store)@[k],
{
    let now = now_ts();
    let r = sweep_at(store, now);
    proof {
        if r is Ok {
            assert(store@ == swept_view(old(store)@, now));
        }
    }
    r
}

} // verus!
