//! Relational backend: one table per namespace with the digest as
//! primary key, over an embedded SQL engine.
//!
//! Every call into the engine goes through a trusted wrapper whose
//! contract speaks of `sqlite_tables`, the name for what the database
//! behind a connection holds. The wrappers rely on the schema this
//! module itself creates: `id INTEGER, sha BLOB NOT NULL PRIMARY KEY`,
//! on a database file that only this process writes. They also rely
//! on table names never differing only in ASCII letter case — the
//! engine compares identifiers case-insensitively — which
//! `valid_table_name` guarantees by refusing uppercase letters.
use vstd::prelude::*;

use crate::db::{
    ens_ns, spec_valid_table_name, valid_table_name, with_record, DbOperation,
    MarsImage, StoreError, StoreModel,
};
use crate::utils::convert::{le_bytes_of, le_i32_of, lemma_codec_round_trip};

verus! {

#[verifier::external_type_specification]
#[verifier::external_body]
pub struct ExConnection(rusqlite::Connection);

#[verifier::external_type_specification]
#[verifier::external_body]
pub struct ExRusqliteError(rusqlite::Error);

/// What the database behind a connection holds: table name, to digest,
/// to the identifier stored beside it.
pub uninterp spec fn sqlite_tables(c: rusqlite::Connection) -> Map<Seq<char>, Map<Seq<u8>, i32>>;

/// A failed row insert, telling a primary-key conflict apart from any
/// other engine failure.
pub enum SqlInsertFail {
    Conflict,
    Other(rusqlite::Error),
}

/// Relies on rusqlite::Connection::open: opens or creates the database
/// file at `path`. Nothing is known of what an existing file holds.
#[verifier::external_body]
fn sqlite_open(path: &str) -> Result<rusqlite::Connection, rusqlite::Error> {
    rusqlite::Connection::open(path)
}

/// Relies on rusqlite::Connection::open_in_memory: a fresh in-memory
/// database holds no tables.
#[verifier::external_body]
fn sqlite_open_memory() -> (r: Result<rusqlite::Connection, rusqlite::Error>)
    ensures
        r matches Ok(c) ==> sqlite_tables(c) =~~= Map::empty(),
{
    rusqlite::Connection::open_in_memory()
}

/// Relies on rusqlite::Connection::execute running
/// `CREATE TABLE IF NOT EXISTS [t] (id INTEGER, sha BLOB NOT NULL PRIMARY KEY)`:
/// an absent table appears empty, an existing one keeps its rows, and a
/// failed statement changes nothing.
#[verifier::external_body]
fn sql_create_table(conn: &mut rusqlite::Connection, table: &str) -> (r: Result<
    (),
    rusqlite::Error,
>)
    requires
        spec_valid_table_name(table@),
    ensures
        r is Ok ==> sqlite_tables(*final(conn)) == (if sqlite_tables(*old(conn)).contains_key(
            table@,
        ) {
            sqlite_tables(*old(conn))
        } else {
            sqlite_tables(*old(conn)).insert(table@, Map::empty())
        }),
        r is Err ==> sqlite_tables(*final(conn)) == sqlite_tables(*old(conn)),
{
    let sql = format!(
        "CREATE TABLE IF NOT EXISTS [{}] (id INTEGER, sha BLOB NOT NULL PRIMARY KEY);",
        table,
    );
    conn.execute(&sql, ())?;
    Ok(())
}

/// Relies on rusqlite::Connection::prepare, Statement::query, Rows::next
/// and Row::get running `SELECT id, sha FROM [t] WHERE sha = ?1`: the
/// row whose primary key equals `key`, when the table has one.
#[verifier::external_body]
fn sql_select_row(conn: &rusqlite::Connection, table: &str, key: &[u8]) -> (r: Result<
    Option<(i32, Vec<u8>)>,
    rusqlite::Error,
>)
    requires
        spec_valid_table_name(table@),
    ensures
        r matches Ok(o) ==> sqlite_tables(*conn).contains_key(table@),
        r matches Ok(o) ==> (o matches Some(row) ==> sqlite_tables(*conn)[table@].contains_key(
            key@,
        ) && row.0 == sqlite_tables(*conn)[table@][key@] && row.1@ == key@),
        r matches Ok(o) ==> (o is None ==> !sqlite_tables(*conn)[table@].contains_key(key@)),
{
    let sql = format!("SELECT id, sha FROM [{}] WHERE sha = ?1", table);
    let mut stmt = conn.prepare(&sql)?;
    let mut rows = stmt.query((key,))?;
    match rows.next()? {
        Some(row) => Ok(Some((row.get(0)?, row.get(1)?))),
        None => Ok(None),
    }
}

/// Relies on rusqlite::Connection::execute running
/// `INSERT INTO [t] (id, sha) VALUES (?1, ?2)` against the primary key
/// on `sha`: the insert succeeds exactly on a fresh digest, a
/// constraint violation reports a held one, and a failed statement
/// changes nothing.
#[verifier::external_body]
fn sql_insert_row(conn: &mut rusqlite::Connection, table: &str, id: i32, key: &[u8]) -> (r: Result<
    (),
    SqlInsertFail,
>)
    requires
        spec_valid_table_name(table@),
        sqlite_tables(*old(conn)).contains_key(table@),
    ensures
        r is Ok ==> !sqlite_tables(*old(conn))[table@].contains_key(key@) && sqlite_tables(
            *final(conn),
        ) == sqlite_tables(*old(conn)).insert(
            table@,
            sqlite_tables(*old(conn))[table@].insert(key@, id),
        ),
        r matches Err(f) ==> sqlite_tables(*final(conn)) == sqlite_tables(*old(conn)),
        r matches Err(f) ==> (f is Conflict ==> sqlite_tables(*old(conn))[table@].contains_key(
            key@,
        )),
{
    let sql = format!("INSERT INTO [{}] (id, sha) VALUES (?1, ?2)", table);
    match conn.execute(&sql, (id, key)) {
        Ok(_) => Ok(()),
        Err(rusqlite::Error::SqliteFailure(e, m)) => match e.code {
            rusqlite::ErrorCode::ConstraintViolation => Err(SqlInsertFail::Conflict),
            _ => Err(SqlInsertFail::Other(rusqlite::Error::SqliteFailure(e, m))),
        },
        Err(e) => Err(SqlInsertFail::Other(e)),
    }
}

/// Relies on rusqlite::Connection::execute running `DROP TABLE [t]`:
/// success removes the table whole, dropping an absent table fails, and
/// a failed statement changes nothing.
#[verifier::external_body]
fn sql_drop_table(conn: &mut rusqlite::Connection, table: &str) -> (r: Result<
    (),
    rusqlite::Error,
>)
    requires
        spec_valid_table_name(table@),
    ensures
        r is Ok ==> sqlite_tables(*old(conn)).contains_key(table@) && sqlite_tables(*final(conn))
            == sqlite_tables(*old(conn)).remove(table@),
        r is Err ==> sqlite_tables(*final(conn)) == sqlite_tables(*old(conn)),
{
    let sql = format!("DROP TABLE [{}]", table);
    conn.execute(&sql, ())?;
    Ok(())
}

/// Relies on rusqlite::Connection::prepare and Statement::exists
/// querying `sqlite_master` with the table name as a parameter.
#[verifier::external_body]
fn sql_exist_table(conn: &rusqlite::Connection, table: &str) -> (r: Result<bool, rusqlite::Error>)
    ensures
        r matches Ok(b) ==> b == sqlite_tables(*conn).contains_key(table@),
{
    let sql = "SELECT name FROM sqlite_master WHERE type='table' AND name=?1";
    let mut stmt = conn.prepare(sql)?;
    stmt.exists((table,))
}

/// Relies on the Display impl of rusqlite::Error for the engine's
/// message.
#[verifier::external_body]
fn sqlite_err_text(e: rusqlite::Error) -> String {
    format!("{}", e)
}

/// The relational backend: one connection, owned exclusively.
pub struct Sqlite {
    pub conn: rusqlite::Connection,
}

/// A table of identifiers, with every identifier encoded to its byte
/// image.
pub open spec fn enc_table(m: Map<Seq<u8>, i32>) -> Map<Seq<u8>, Seq<u8>> {
    Map::new(|k: Seq<u8>| m.contains_key(k), |k: Seq<u8>| le_bytes_of(m[k]))
}

impl Sqlite {
    /// Open or create the database file at `path`. Nothing is known of
    /// the contents an existing file brings along.
    pub fn new(path: &str) -> (r: Result<Sqlite, StoreError>)
        ensures
            r matches Ok(s) ==> s.inv(),
    {
        match sqlite_open(path) {
            Ok(conn) => Ok(Sqlite { conn }),
            Err(e) => Err(StoreError::Storage(sqlite_err_text(e))),
        }
    }

    /// A fresh in-memory store, holding nothing.
    pub fn new_memory() -> (r: Result<Sqlite, StoreError>)
        ensures
            r matches Ok(s) ==> s.inv() && s.model() == Map::<Seq<char>, Map<Seq<u8>, Seq<u8>>>::empty(),
    {
        match sqlite_open_memory() {
            Ok(conn) => {
                let s = Sqlite { conn };
                proof {
                    assert(s.model() =~~= Map::<Seq<char>, Map<Seq<u8>, Seq<u8>>>::empty());
                }
                Ok(s)
            },
            Err(e) => Err(StoreError::Storage(sqlite_err_text(e))),
        }
    }
}

impl DbOperation for Sqlite {
    open spec fn model(&self) -> StoreModel {
        Map::new(
            |t: Seq<char>| sqlite_tables(self.conn).contains_key(t),
            |t: Seq<char>| enc_table(sqlite_tables(self.conn)[t]),
        )
    }

    /// The connection needs nothing beyond itself.
    open spec fn inv(&self) -> bool {
        true
    }

    fn create_table_if_not_exist(&mut self, table: &str) -> (r: Result<(), StoreError>) {
        if !valid_table_name(table) {
            return Err(StoreError::InvalidName);
        }
        match sql_create_table(&mut self.conn, table) {
            Ok(()) => {
                proof {
                    assert(self.model() =~~= ens_ns(old(self).model(), table@));
                }
                Ok(())
            },
            Err(e) => Err(StoreError::Storage(sqlite_err_text(e))),
        }
    }

    fn query_from_table(&mut self, table: &str, key: &[u8]) -> (r: Result<
        Option<MarsImage>,
        StoreError,
    >) {
        if !valid_table_name(table) {
            return Err(StoreError::InvalidName);
        }
        match sql_exist_table(&self.conn, table) {
            Err(e) => Err(StoreError::Storage(sqlite_err_text(e))),
            Ok(false) => Ok(None),
            Ok(true) => match sql_select_row(&self.conn, table, key) {
                Err(e) => Err(StoreError::Storage(sqlite_err_text(e))),
                Ok(None) => Ok(None),
                Ok(Some((id, sha))) => {
                    proof {
                        lemma_codec_round_trip(id);
                    }
                    Ok(Some(MarsImage::new(id, sha)))
                },
            },
        }
    }

    fn insert_to_table(&mut self, table: &str, item: MarsImage) -> (r: Result<(), StoreError>) {
        if !valid_table_name(table) {
            return Err(StoreError::InvalidName);
        }
        let ghost pre = self.model();
        match sql_create_table(&mut self.conn, table) {
            Ok(()) => {},
            Err(e) => {
                return Err(StoreError::Storage(sqlite_err_text(e)));
            },
        }
        proof {
            assert(self.model() =~~= ens_ns(pre, table@));
        }
        match sql_insert_row(&mut self.conn, table, item.id, item.sha.as_slice()) {
            Ok(()) => {
                proof {
                    assert(self.model() =~~= with_record(
                        pre,
                        table@,
                        item.sha@,
                        le_bytes_of(item.id),
                    ));
                }
                Ok(())
            },
            Err(SqlInsertFail::Conflict) => {
                proof {
                    assert(pre.contains_key(table@));
                    assert(ens_ns(pre, table@) =~~= pre);
                }
                Err(StoreError::Conflict)
            },
            Err(SqlInsertFail::Other(e)) => {
                proof {
                    assert(self.model() =~~= ens_ns(old(self).model(), table@));
                }
                Err(StoreError::Storage(sqlite_err_text(e)))
            },
        }
    }

    fn exist_table(&mut self, table: &str) -> (r: Result<bool, StoreError>) {
        match sql_exist_table(&self.conn, table) {
            Ok(b) => Ok(b),
            Err(e) => Err(StoreError::Storage(sqlite_err_text(e))),
        }
    }

    fn insert_or_get_existing(&mut self, table: &str, item: MarsImage) -> (r: Result<
        Option<MarsImage>,
        StoreError,
    >) {
        if !valid_table_name(table) {
            return Err(StoreError::InvalidName);
        }
        let ghost pre = self.model();
        match sql_create_table(&mut self.conn, table) {
            Ok(()) => {},
            Err(e) => {
                return Err(StoreError::Storage(sqlite_err_text(e)));
            },
        }
        proof {
            assert(self.model() =~~= ens_ns(pre, table@));
        }
        match sql_insert_row(&mut self.conn, table, item.id, item.sha.as_slice()) {
            Ok(()) => {
                proof {
                    assert(self.model() =~~= with_record(
                        pre,
                        table@,
                        item.sha@,
                        le_bytes_of(item.id),
                    ));
                }
                Ok(None)
            },
            Err(SqlInsertFail::Conflict) => {
                proof {
                    assert(pre.contains_key(table@));
                    assert(ens_ns(pre, table@) =~~= pre);
                }
                match sql_select_row(&self.conn, table, item.sha.as_slice()) {
                    Err(e) => Err(StoreError::Storage(sqlite_err_text(e))),
                    Ok(None) => {
                        proof {
                            assert(false);
                        }
                        Ok(None)
                    },
                    Ok(Some((id, sha))) => {
                        proof {
                            lemma_codec_round_trip(id);
                        }
                        Ok(Some(MarsImage::new(id, sha)))
                    },
                }
            },
            Err(SqlInsertFail::Other(e)) => {
                proof {
                    assert(self.model() =~~= ens_ns(old(self).model(), table@));
                }
                Err(StoreError::Storage(sqlite_err_text(e)))
            },
        }
    }

    fn drop_table(&mut self, table: &str) -> (r: Result<(), StoreError>) {
        if !valid_table_name(table) {
            return Err(StoreError::InvalidName);
        }
        match sql_exist_table(&self.conn, table) {
            Err(e) => Err(StoreError::Storage(sqlite_err_text(e))),
            Ok(false) => Err(StoreError::NotFound),
            Ok(true) => match sql_drop_table(&mut self.conn, table) {
                Ok(()) => {
                    proof {
                        assert(self.model() =~~= old(self).model().remove(table@));
                    }
                    Ok(())
                },
                Err(e) => Err(StoreError::Storage(sqlite_err_text(e))),
            },
        }
    }
}

} // verus!
