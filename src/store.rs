//! The per-actor key/value store: an ordered map of keys to JSON texts,
//! kept in a database file named after the actor.
use vstd::prelude::*;
use crate::json::{json_parse, parse_json};
use crate::text::join_text;

verus! {

/// `redb::Database`, an open database file.
#[verifier::external_type_specification]
#[verifier::external_body]
pub struct ExDatabase(redb::Database);

/// `redb::WriteTransaction`.
#[verifier::external_type_specification]
#[verifier::external_body]
pub struct ExWriteTransaction(redb::WriteTransaction);

/// `redb::ReadTransaction`.
#[verifier::external_type_specification]
#[verifier::external_body]
pub struct ExReadTransaction(redb::ReadTransaction);

/// `redb::CacheStats`, shown to operators as it is.
#[verifier::external_type_specification]
#[verifier::external_body]
pub struct ExCacheStats(redb::CacheStats);

/// The name of the table that holds an actor's entries.
pub const TABLE: &'static str = "DATA";

/// The compact JSON text `serde_json::to_string` writes for a value.
pub uninterp spec fn json_compact(v: serde_json::Value) -> Seq<char>;

/// Relies on `serde_json::to_string`, which cannot fail on a
/// `serde_json::Value`.
#[verifier::external_body]
fn compact_json(v: &serde_json::Value) -> (r: String)
    ensures
        r@ == json_compact(*v),
{
    serde_json::to_string(v).unwrap_or_default()
}

/// Relies on `redb::Database::create`: opens the database file, creating it
/// when absent.
#[verifier::external_body]
fn create_database(path: &str) -> (r: Result<redb::Database, String>) {
    redb::Database::create(path).map_err(|e| e.to_string())
}

/// Relies on `redb::Database::compact`.
#[verifier::external_body]
fn compact_database(db: &mut redb::Database) -> (r: Result<bool, String>) {
    db.compact().map_err(|e| e.to_string())
}

/// Relies on `redb::ReadableDatabase::cache_stats`.
#[verifier::external_body]
fn database_stats(db: &redb::Database) -> (r: redb::CacheStats) {
    redb::ReadableDatabase::cache_stats(db)
}

/// Relies on `redb::Database::begin_write`.
#[verifier::external_body]
fn begin_write(db: &redb::Database) -> (r: Result<redb::WriteTransaction, String>) {
    db.begin_write().map_err(|e| e.to_string())
}

/// Relies on `redb::ReadableDatabase::begin_read`.
#[verifier::external_body]
fn begin_read(db: &redb::Database) -> (r: Result<redb::ReadTransaction, String>) {
    redb::ReadableDatabase::begin_read(db).map_err(|e| e.to_string())
}

/// Relies on `redb::WriteTransaction::open_table` (a table of text keys
/// and text values named `table`, which redb requires to be non-empty) and
/// `redb::Table::insert` on it.
#[verifier::external_body]
fn insert_entry(txn: &redb::WriteTransaction, table: &str, key: &str, value: String) -> (r: Result<(), String>)
    requires
        table@.len() > 0,
{
    let mut t = txn.open_table(redb::TableDefinition::<&str, String>::new(table)).map_err(|e| e.to_string())?;
    t.insert(key, value).map(|_| ()).map_err(|e| e.to_string())
}

/// Relies on `redb::WriteTransaction::open_table` (a table of text keys
/// and text values named `table`, which redb requires to be non-empty) and
/// `redb::Table::remove` on it.
#[verifier::external_body]
fn remove_entry(txn: &redb::WriteTransaction, table: &str, key: &str) -> (r: Result<(), String>)
    requires
        table@.len() > 0,
{
    let mut t = txn.open_table(redb::TableDefinition::<&str, String>::new(table)).map_err(|e| e.to_string())?;
    t.remove(key).map(|_| ()).map_err(|e| e.to_string())
}

/// Relies on `redb::ReadTransaction::open_table` (a table of text keys and
/// text values named `table`, which redb requires to be non-empty) and
/// `redb::ReadOnlyTable::get` on it, handing
/// out the stored text.
#[verifier::external_body]
fn get_entry(txn: &redb::ReadTransaction, table: &str, key: &str) -> (r: Result<Option<String>, String>)
    requires
        table@.len() > 0,
{
    let t = txn.open_table(redb::TableDefinition::<&str, String>::new(table)).map_err(|e| e.to_string())?;
    t.get(key).map(|g| g.map(|v| v.value())).map_err(|e| e.to_string())
}

/// Relies on `redb::WriteTransaction::commit`.
#[verifier::external_body]
fn commit_write(txn: redb::WriteTransaction) -> (r: Result<(), String>) {
    txn.commit().map_err(|e| e.to_string())
}

/// The value a stored text holds: none when nothing is stored, the parsed
/// JSON value otherwise, and an error for a text that is not JSON.
pub fn stored_value(t: Option<String>) -> (r: Result<Option<serde_json::Value>, String>)
    ensures
        t is None ==> r == Ok::<Option<serde_json::Value>, String>(None),
        t is Some && json_parse(t->0@) is Some ==> r == Ok::<Option<serde_json::Value>, String>(
            Some(json_parse(t->0@)->0),
        ),
        t is Some && json_parse(t->0@) is None ==> r is Err,
{
    match t {
        Some(text) => match parse_json(text.as_str()) {
            Some(v) => Ok(Some(v)),
            None => Err(String::from_str("stored value is not JSON")),
        },
        None => Ok(None),
    }
}

/// A handle on one actor's store: the directory of the stores and the
/// store's name.
#[derive(Clone, Debug)]
pub struct Db {
    storage_dir: String,
    name: String,
}

impl Db {
    pub closed spec fn spec_file(&self) -> Seq<char> {
        self.storage_dir@ + "/"@ + self.name@
    }

    /// The store `name` under `storage_dir`.
    pub fn new(storage_dir: &str, name: &str) -> (r: Db)
        ensures
            r.spec_file() == storage_dir@ + "/"@ + name@,
    {
        Db { storage_dir: String::from_str(storage_dir), name: String::from_str(name) }
    }

    /// The path of the store's database file.
    pub fn file(&self) -> (r: String)
        ensures
            r@ == self.spec_file(),
    {
        let d = join_text(self.storage_dir.as_str(), "/");
        join_text(d.as_str(), self.name.as_str())
    }

    fn db(&self) -> Result<redb::Database, String> {
        create_database(self.file().as_str())
    }

    /// The database's cache statistics.
    pub fn stats(&self) -> Result<redb::CacheStats, String> {
        match self.db() {
            Ok(db) => Ok(database_stats(&db)),
            Err(e) => Err(e),
        }
    }

    /// Compacts the database; tells whether anything was compacted.
    pub fn compact(&self) -> Result<bool, String> {
        match self.db() {
            Ok(mut db) => compact_database(&mut db),
            Err(e) => Err(e),
        }
    }

    /// Stores `value` under `key` as compact JSON text, in one transaction.
    pub fn store(&self, key: &str, value: &serde_json::Value) -> Result<(), String> {
        let db = match self.db() {
            Ok(db) => db,
            Err(e) => {
                return Err(e);
            },
        };
        let txn = match begin_write(&db) {
            Ok(t) => t,
            Err(e) => {
                return Err(e);
            },
        };
        let text = compact_json(value);
        proof {
            reveal_strlit("DATA");
        }
        match insert_entry(&txn, TABLE, key, text) {
            Ok(()) => commit_write(txn),
            Err(e) => Err(e),
        }
    }

    /// Deletes the entry under `key`, in one transaction.
    pub fn delete(&self, key: &str) -> Result<(), String> {
        let db = match self.db() {
            Ok(db) => db,
            Err(e) => {
                return Err(e);
            },
        };
        let txn = match begin_write(&db) {
            Ok(t) => t,
            Err(e) => {
                return Err(e);
            },
        };
        proof {
            reveal_strlit("DATA");
        }
        match remove_entry(&txn, TABLE, key) {
            Ok(()) => commit_write(txn),
            Err(e) => Err(e),
        }
    }

    fn read_text(&self, key: &str) -> Result<Option<String>, String> {
        let db = match self.db() {
            Ok(db) => db,
            Err(e) => {
                return Err(e);
            },
        };
        let txn = match begin_read(&db) {
            Ok(t) => t,
            Err(e) => {
                return Err(e);
            },
        };
        proof {
            reveal_strlit("DATA");
        }
        get_entry(&txn, TABLE, key)
    }

    /// The value under `key`, if any: what [`stored_value`] makes of the
    /// stored text. A failed read of the store is passed on.
    pub fn load(&self, key: &str) -> Result<Option<serde_json::Value>, String> {
        match self.read_text(key) {
            Ok(t) => stored_value(t),
            Err(e) => Err(e),
        }
    }

    /// Whether an entry exists under `key`.
    pub fn has_key(&self, key: &str) -> Result<bool, String> {
        match self.read_text(key) {
            Ok(t) => Ok(t.is_some()),
            Err(e) => Err(e),
        }
    }
}

} // verus!
