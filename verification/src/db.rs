use vstd::prelude::*;

verus! {

/// A bounded pool of connections to the embedded datastore.
#[verifier::external_body]
pub struct DbPool {
    pool: r2d2::Pool<r2d2_sqlite::SqliteConnectionManager>,
}

/// The rows of the record table as the most recent statement through this
/// handle observed or left them. The store behind a handle is shared:
/// clones of the handle, other pools on the same file, and other processes
/// may change the rows at any time, so no two statements are guaranteed to
/// see related rows. Every operation below therefore takes the handle
/// exclusively — reads included — and its contract speaks only of the map
/// as of its own statement, never of what an earlier call saw.
pub uninterp spec fn db_map(p: DbPool) -> Map<Seq<char>, Seq<char>>;

/// Outcome of the single-row lookup statement.
pub enum RawSelect {
    Row(String),
    NoRow,
    AcquireFail,
    QueryFail,
}

/// Outcome of an insert or upsert statement.
pub enum RawWrite {
    Done,
    ConstraintViolation,
    AcquireFail,
    ExecFail,
}

/// Outcome of the delete statement, with the number of rows removed.
pub enum RawDelete {
    Removed(usize),
    AcquireFail,
    ExecFail,
}

/// Relies on r2d2_sqlite::SqliteConnectionManager::{file, with_init},
/// r2d2::Builder::{max_size, build} and rusqlite::Connection::{execute_batch,
/// execute}: opens the datastore at `db_name`, with write-ahead journaling
/// and a 5 s busy wait set on every pooled connection, at most 10
/// connections, and creates the record table if it is absent.
#[verifier::external_body]
pub fn init_pool(db_name: &str) -> (r: Option<DbPool>) {
    let manager = r2d2_sqlite::SqliteConnectionManager::file(db_name).with_init(|c| {
        c.execute_batch("PRAGMA journal_mode = WAL; PRAGMA busy_timeout = 5000;")
    });
    let pool = r2d2::Pool::builder().max_size(10).build(manager).ok()?;
    let conn = pool.get().ok()?;
    conn.execute(
        "CREATE TABLE IF NOT EXISTS kv_store (key TEXT PRIMARY KEY, value TEXT NOT NULL)",
        (),
    ).ok()?;
    conn.execute("PRAGMA synchronous = NORMAL;", ()).ok();
    Some(DbPool { pool })
}

/// Relies on r2d2::Pool::clone: the clone is a second handle on the same
/// shared pool. Because the two handles alias the same rows, nothing is
/// stated of the clone's record map (see `db_map`).
#[verifier::external_body]
pub fn clone_pool(p: &DbPool) -> (r: DbPool) {
    DbPool { pool: p.pool.clone() }
}

/// Relies on r2d2::Pool::get and rusqlite::Connection::query_row running
/// `SELECT value FROM kv_store WHERE key = ?1`: a returned row holds the
/// value the statement found under `key`, and `QueryReturnedNoRows` means
/// the statement found no row for it. Both facts are stated of the map as
/// this statement saw it; nothing ties it to an earlier call's map.
#[verifier::external_body]
pub(crate) fn db_select(p: &mut DbPool, key: &str) -> (r: RawSelect)
    ensures
        (r matches RawSelect::Row(v) ==> db_map(*final(p)).contains_key(key@) && db_map(
            *final(p),
        )[key@] == v@),
        (r matches RawSelect::NoRow ==> !db_map(*final(p)).contains_key(key@)),
{
    let conn = match p.pool.get() {
        Ok(c) => c,
        Err(_) => return RawSelect::AcquireFail,
    };
    match conn.query_row::<String, _, _>(
        "SELECT value FROM kv_store WHERE key = ?1",
        (key,),
        |row| row.get(0),
    ) {
        Ok(v) => RawSelect::Row(v),
        Err(rusqlite::Error::QueryReturnedNoRows) => RawSelect::NoRow,
        Err(_) => RawSelect::QueryFail,
    }
}

/// Relies on r2d2::Pool::get and rusqlite::Connection::execute running
/// `INSERT INTO kv_store (key, value) VALUES (?1, ?2)`: with both
/// parameters bound as text, only the primary key can be violated, so a
/// constraint violation means a row with this key exists; a successful
/// insert leaves the row holding `value`. Both facts are stated of the map
/// as this statement left it; which keys existed before it is not stated,
/// since the store is shared.
#[verifier::external_body]
pub(crate) fn db_insert(p: &mut DbPool, key: &str, value: &str) -> (r: RawWrite)
    ensures
        (r matches RawWrite::Done ==> db_map(*final(p)).contains_key(key@) && db_map(
            *final(p),
        )[key@] == value@),
        (r matches RawWrite::ConstraintViolation ==> db_map(*final(p)).contains_key(key@)),
{
    let conn = match p.pool.get() {
        Ok(c) => c,
        Err(_) => return RawWrite::AcquireFail,
    };
    match conn.execute("INSERT INTO kv_store (key, value) VALUES (?1, ?2)", (key, value)) {
        Ok(_) => RawWrite::Done,
        Err(rusqlite::Error::SqliteFailure(e, _)) if e.code
            == rusqlite::ffi::ErrorCode::ConstraintViolation => RawWrite::ConstraintViolation,
        Err(_) => RawWrite::ExecFail,
    }
}

/// Relies on r2d2::Pool::get and rusqlite::Connection::execute running
/// `INSERT OR REPLACE INTO kv_store (key, value) VALUES (?1, ?2)`: on
/// success the statement leaves the row for `key` holding `value`, whether
/// or not one existed before. Stated of the map as this statement left it.
#[verifier::external_body]
pub(crate) fn db_upsert(p: &mut DbPool, key: &str, value: &str) -> (r: RawWrite)
    ensures
        (r matches RawWrite::Done ==> db_map(*final(p)).contains_key(key@) && db_map(
            *final(p),
        )[key@] == value@),
{
    let conn = match p.pool.get() {
        Ok(c) => c,
        Err(_) => return RawWrite::AcquireFail,
    };
    match conn.execute(
        "INSERT OR REPLACE INTO kv_store (key, value) VALUES (?1, ?2)",
        (key, value),
    ) {
        Ok(_) => RawWrite::Done,
        Err(_) => RawWrite::ExecFail,
    }
}

/// Relies on r2d2::Pool::get and rusqlite::Connection::execute running
/// `DELETE FROM kv_store WHERE key = ?1`: execute returns how many rows
/// the statement removed — one when it found a row under the primary key,
/// zero when it found none — and either way it leaves no row for `key`.
/// The absence is stated of the map as this statement left it; whether the
/// key had a row before it is reported only through the count.
#[verifier::external_body]
pub(crate) fn db_delete(p: &mut DbPool, key: &str) -> (r: RawDelete)
    ensures
        (r matches RawDelete::Removed(n) ==> !db_map(*final(p)).contains_key(key@) && n <= 1),
{
    let conn = match p.pool.get() {
        Ok(c) => c,
        Err(_) => return RawDelete::AcquireFail,
    };
    match conn.execute("DELETE FROM kv_store WHERE key = ?1", (key,)) {
        Ok(n) => RawDelete::Removed(n),
        Err(_) => RawDelete::ExecFail,
    }
}

} // verus!
