use crate::db::{db_delete, db_insert, db_map, db_select, db_upsert, DbPool, RawDelete, RawSelect,
    RawWrite};
use vstd::prelude::*;

verus! {

/// Result of a lookup.
#[derive(Debug)]
pub enum GetResult {
    Found(String),
    NotFound,
}

/// Result of an insert of a fresh key.
#[derive(Clone, Copy, Debug, PartialEq, Eq, Structural)]
pub enum CreateResult {
    Created,
    Conflict,
    StorageError,
}

/// Result of an upsert: it never reports an absent key.
#[derive(Clone, Copy, Debug, PartialEq, Eq, Structural)]
pub enum UpdateResult {
    Updated,
    StorageError,
}

/// Result of a delete by key.
#[derive(Clone, Copy, Debug, PartialEq, Eq, Structural)]
pub enum DeleteResult {
    Deleted,
    NotFound,
    StorageError,
}

/// Failure outside the domain outcomes: no connection could be had from
/// the pool, or the statement itself failed against the store.
#[derive(Clone, Copy, Debug, PartialEq, Eq, Structural)]
pub enum KvError {
    ConnectFailed,
    StorageFailed,
}

/// What a lookup finds in the record map.
pub open spec fn kv_lookup(m: Map<Seq<char>, Seq<char>>, k: Seq<char>) -> Option<Seq<char>> {
    if m.contains_key(k) {
        Some(m[k])
    } else {
        None
    }
}

/// The map after a create: unchanged when the key is taken, else extended.
pub open spec fn kv_create_map(m: Map<Seq<char>, Seq<char>>, k: Seq<char>, v: Seq<char>) -> Map<
    Seq<char>,
    Seq<char>,
> {
    if m.contains_key(k) {
        m
    } else {
        m.insert(k, v)
    }
}

/// A create of `k` reports a conflict exactly when the key is taken.
pub open spec fn kv_create_conflicts(m: Map<Seq<char>, Seq<char>>, k: Seq<char>) -> bool {
    m.contains_key(k)
}

/// The map after an upsert: the row for `k` holds `v`, in every case.
pub open spec fn kv_update_map(m: Map<Seq<char>, Seq<char>>, k: Seq<char>, v: Seq<char>) -> Map<
    Seq<char>,
    Seq<char>,
> {
    m.insert(k, v)
}

/// The map after a delete.
pub open spec fn kv_delete_map(m: Map<Seq<char>, Seq<char>>, k: Seq<char>) -> Map<
    Seq<char>,
    Seq<char>,
> {
    m.remove(k)
}

/// A delete reports success exactly when the key had a row.
pub open spec fn kv_delete_found(m: Map<Seq<char>, Seq<char>>, k: Seq<char>) -> bool {
    m.contains_key(k)
}

/// What a lookup returns for each raw statement outcome: a row is the
/// value, no row is an absent key, and a failed acquire or a failed query
/// is an error of its own, never mistaken for an absent key.
pub fn get_outcome(raw: RawSelect) -> (r: Result<GetResult, KvError>)
    ensures
        (raw matches RawSelect::Row(v) ==> r matches Ok(GetResult::Found(w)) && w == v),
        (raw matches RawSelect::NoRow ==> r matches Ok(GetResult::NotFound)),
        (raw matches RawSelect::QueryFail ==> r matches Err(KvError::StorageFailed)),
        (raw matches RawSelect::AcquireFail ==> r matches Err(KvError::ConnectFailed)),
        (r matches Ok(GetResult::NotFound) ==> raw matches RawSelect::NoRow),
{
    match raw {
        RawSelect::Row(v) => Ok(GetResult::Found(v)),
        RawSelect::NoRow => Ok(GetResult::NotFound),
        RawSelect::QueryFail => Err(KvError::StorageFailed),
        RawSelect::AcquireFail => Err(KvError::ConnectFailed),
    }
}

/// Single-row lookup by key: a found value is what the statement saw
/// stored, and an absent key is reported only when the statement really
/// found no row. Both facts hold of the map as this statement observed
/// it (see `db_map`); the handle is taken exclusively for that reason.
pub fn get(p: &mut DbPool, key: &str) -> (r: Result<GetResult, KvError>)
    ensures
        (r matches Ok(GetResult::Found(v)) ==> kv_lookup(db_map(*final(p)), key@) == Some(v@)),
        (r matches Ok(GetResult::NotFound) ==> kv_lookup(db_map(*final(p)), key@) is None),
{
    get_outcome(db_select(p, key))
}

/// What a create returns for each raw statement outcome.
pub fn create_outcome(raw: RawWrite) -> (r: Result<CreateResult, KvError>)
    ensures
        (raw matches RawWrite::Done ==> r == Ok::<CreateResult, KvError>(CreateResult::Created)),
        (raw matches RawWrite::ConstraintViolation ==> r == Ok::<CreateResult, KvError>(
            CreateResult::Conflict,
        )),
        (raw matches RawWrite::ExecFail ==> r == Ok::<CreateResult, KvError>(
            CreateResult::StorageError,
        )),
        (raw matches RawWrite::AcquireFail ==> r == Err::<CreateResult, KvError>(
            KvError::ConnectFailed,
        )),
{
    match raw {
        RawWrite::Done => Ok(CreateResult::Created),
        RawWrite::ConstraintViolation => Ok(CreateResult::Conflict),
        RawWrite::ExecFail => Ok(CreateResult::StorageError),
        RawWrite::AcquireFail => Err(KvError::ConnectFailed),
    }
}

/// Insert of a fresh key: success leaves the row holding `value`, and a
/// conflict means the statement found the key taken. Both facts hold of
/// the map as this statement left it (see `db_map`).
pub fn create(p: &mut DbPool, key: &str, value: &str) -> (r: Result<CreateResult, KvError>)
    ensures
        (r == Ok::<CreateResult, KvError>(CreateResult::Created) ==> kv_lookup(
            db_map(*final(p)),
            key@,
        ) == Some(value@)),
        (r == Ok::<CreateResult, KvError>(CreateResult::Conflict) ==> kv_create_conflicts(
            db_map(*final(p)),
            key@,
        )),
{
    create_outcome(db_insert(p, key, value))
}

/// What an update returns for each raw statement outcome.
pub fn update_outcome(raw: RawWrite) -> (r: Result<UpdateResult, KvError>)
    ensures
        (raw matches RawWrite::Done ==> r == Ok::<UpdateResult, KvError>(UpdateResult::Updated)),
        ((raw matches RawWrite::ExecFail) || (raw matches RawWrite::ConstraintViolation) ==> r
            == Ok::<UpdateResult, KvError>(UpdateResult::StorageError)),
        (raw matches RawWrite::AcquireFail ==> r == Err::<UpdateResult, KvError>(
            KvError::ConnectFailed,
        )),
{
    match raw {
        RawWrite::Done => Ok(UpdateResult::Updated),
        RawWrite::ConstraintViolation => Ok(UpdateResult::StorageError),
        RawWrite::ExecFail => Ok(UpdateResult::StorageError),
        RawWrite::AcquireFail => Err(KvError::ConnectFailed),
    }
}

/// Upsert: on success the statement leaves the row for `key` holding
/// `value`, whether or not the key existed before; absence is never an
/// error. Stated of the map as this statement left it (see `db_map`).
pub fn update(p: &mut DbPool, key: &str, value: &str) -> (r: Result<UpdateResult, KvError>)
    ensures
        (r == Ok::<UpdateResult, KvError>(UpdateResult::Updated) ==> kv_lookup(
            db_map(*final(p)),
            key@,
        ) == Some(value@)),
{
    update_outcome(db_upsert(p, key, value))
}

/// What a delete returns for each raw statement outcome: a removed-row
/// count of zero is reported as an absent key.
pub fn delete_outcome(raw: RawDelete) -> (r: Result<DeleteResult, KvError>)
    ensures
        (raw matches RawDelete::Removed(n) && n > 0 ==> r == Ok::<DeleteResult, KvError>(
            DeleteResult::Deleted,
        )),
        (raw matches RawDelete::Removed(n) && n == 0 ==> r == Ok::<DeleteResult, KvError>(
            DeleteResult::NotFound,
        )),
        (raw matches RawDelete::ExecFail ==> r == Ok::<DeleteResult, KvError>(
            DeleteResult::StorageError,
        )),
        (raw matches RawDelete::AcquireFail ==> r == Err::<DeleteResult, KvError>(
            KvError::ConnectFailed,
        )),
{
    match raw {
        RawDelete::Removed(n) => if n > 0 {
            Ok(DeleteResult::Deleted)
        } else {
            Ok(DeleteResult::NotFound)
        },
        RawDelete::ExecFail => Ok(DeleteResult::StorageError),
        RawDelete::AcquireFail => Err(KvError::ConnectFailed),
    }
}

/// Delete by key: whether the statement found a row (success) or not
/// (not found), it leaves no row for `key`. Stated of the map as this
/// statement left it (see `db_map`); which of the two is reported comes
/// from the statement's removed-row count.
pub fn delete(p: &mut DbPool, key: &str) -> (r: Result<DeleteResult, KvError>)
    ensures
        (r == Ok::<DeleteResult, KvError>(DeleteResult::Deleted) ==> kv_lookup(
            db_map(*final(p)),
            key@,
        ) is None),
        (r == Ok::<DeleteResult, KvError>(DeleteResult::NotFound) ==> kv_lookup(
            db_map(*final(p)),
            key@,
        ) is None),
{
    delete_outcome(db_delete(p, key))
}

/// Law of the store model — the records as a sole writer drives them,
/// each operation acting as its contract observes: after a create of a
/// fresh key, a lookup returns the created value.
pub proof fn lemma_create_then_get(m: Map<Seq<char>, Seq<char>>, k: Seq<char>, v: Seq<char>)
    requires
        !m.contains_key(k),
    ensures
        kv_lookup(kv_create_map(m, k, v), k) == Some(v),
{
}

/// Law of the store model: once a key is created, a second create of it
/// reports a conflict, leaves the records unchanged, and a lookup still
/// returns the first value.
pub proof fn lemma_create_conflict(
    m: Map<Seq<char>, Seq<char>>,
    k: Seq<char>,
    v1: Seq<char>,
    v2: Seq<char>,
)
    requires
        !m.contains_key(k),
    ensures
        ({
            let m1 = kv_create_map(m, k, v1);
            &&& kv_create_conflicts(m1, k)
            &&& kv_create_map(m1, k, v2) == m1
            &&& kv_lookup(kv_create_map(m1, k, v2), k) == Some(v1)
        }),
{
}

/// Law of the store model: an upsert takes effect whether or not the key
/// existed, and a lookup then returns the new value.
pub proof fn lemma_update_then_get(m: Map<Seq<char>, Seq<char>>, k: Seq<char>, v: Seq<char>)
    ensures
        kv_lookup(kv_update_map(m, k, v), k) == Some(v),
{
}

/// Law of the store model: deleting an existing key succeeds and a lookup
/// afterwards finds nothing; deleting an absent key reports not found and
/// changes nothing.
pub proof fn lemma_delete_then_get(m: Map<Seq<char>, Seq<char>>, k: Seq<char>)
    ensures
        m.contains_key(k) ==> kv_delete_found(m, k) && kv_lookup(kv_delete_map(m, k), k)
            == None::<Seq<char>>,
        !m.contains_key(k) ==> !kv_delete_found(m, k) && kv_delete_map(m, k) == m,
{
    if !m.contains_key(k) {
        assert(kv_delete_map(m, k) =~= m);
    }
}

} // verus!
