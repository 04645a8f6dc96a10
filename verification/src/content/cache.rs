//! The on-disk cache of news items, an SQLite table in which each address
//! is stored once.
//!
//! SQLite runs the statements; the library decides what is handed to it and
//! how the rows it returns become items. Where the database lives is chosen
//! by the application.

use vstd::prelude::*;
use crate::content::ContentItem;
use crate::text::{decimal, decimal_string};
use rusqlite::Connection;

verus! {

/// An open SQLite database (`rusqlite::Connection`), carried as is.
#[verifier::external_type_specification]
#[verifier::external_body]
pub struct ExConnection(Connection);

/// An error reported by SQLite (`rusqlite::Error`), carried as is.
#[verifier::external_type_specification]
#[verifier::external_body]
pub struct ExSqliteError(rusqlite::Error);

/// `rusqlite::Connection::open`: opens (or creates) the database file. The
/// path is first made a C string (`path_to_cstring`, `CString::new`), which
/// fails on a NUL character, so such a path gives an error; otherwise the
/// outcome depends on the file system and nothing is stated of it.
#[verifier::external_body]
fn open_connection(path: &str) -> (r: Result<Connection, rusqlite::Error>)
    ensures
        path@.contains('\0') ==> r is Err,
{
    Connection::open(path)
}

/// `rusqlite::Connection::open_in_memory`: a fresh database in memory;
/// nothing is stated of the outcome.
#[verifier::external_body]
fn open_connection_in_memory() -> (r: Result<Connection, rusqlite::Error>) {
    Connection::open_in_memory()
}

/// `rusqlite::Connection::execute_batch`: runs the statements; what they
/// do is up to SQLite and the database, so nothing is stated.
#[verifier::external_body]
fn execute_batch(conn: &Connection, sql: &str) -> (r: Result<(), rusqlite::Error>) {
    conn.execute_batch(sql)
}

/// `rusqlite::Connection::execute` with the strings bound to `?1`, `?2`, ...
/// in order (through `rusqlite::params_from_iter`); the number of changed
/// rows depends on the database, so nothing is stated of it. The library
/// runs only its own writes through it (`library_write`).
#[verifier::external_body]
fn execute(conn: &Connection, sql: &str, args: &Vec<String>) -> (r: Result<usize, rusqlite::Error>)
    requires
        library_write(sql@, args@.map_values(|s: String| s@)),
{
    conn.execute(sql, rusqlite::params_from_iter(args.iter()))
}

/// A prepared statement (`rusqlite::Statement`), carried as is.
#[verifier::external_type_specification]
#[verifier::external_body]
pub struct ExStatement<'conn>(rusqlite::Statement<'conn>);

/// The rows of a running query (`rusqlite::Rows`), carried as is.
#[verifier::external_type_specification]
#[verifier::external_body]
pub struct ExRows<'stmt>(rusqlite::Rows<'stmt>);

/// One row of a query (`rusqlite::Row`), carried as is.
#[verifier::external_type_specification]
#[verifier::external_body]
pub struct ExRow<'stmt>(rusqlite::Row<'stmt>);

/// `rusqlite::Connection::prepare`: compiles the statement; nothing is
/// stated of the outcome.
#[verifier::external_body]
fn prepare<'conn>(conn: &'conn Connection, sql: &str) -> (r: Result<rusqlite::Statement<'conn>, rusqlite::Error>) {
    conn.prepare(sql)
}

/// `rusqlite::Statement::query` with one integer bound to `?1`; the rows
/// depend on the database, so nothing is stated.
#[verifier::external_body]
fn query<'s, 'conn>(stmt: &'s mut rusqlite::Statement<'conn>, arg: i64) -> (r: Result<rusqlite::Rows<'s>, rusqlite::Error>) {
    stmt.query((arg,))
}

/// `rusqlite::Rows::next`: the next row, if any; nothing is stated.
#[verifier::external_body]
fn next_row<'r, 's>(rows: &'r mut rusqlite::Rows<'s>) -> (r: Result<Option<&'r rusqlite::Row<'s>>, rusqlite::Error>) {
    rows.next()
}

/// `rusqlite::Row::get` of column `index` as text; nothing is stated of
/// the value, which comes from the database.
#[verifier::external_body]
fn column_text(row: &rusqlite::Row, index: usize) -> (r: Result<String, rusqlite::Error>) {
    row.get(index)
}

/// An error of the cache.
#[derive(Debug)]
pub enum CacheError {
    Sqlite(rusqlite::Error),
}

/// The cache: an SQLite database with an `items` table.
pub struct Cache {
    conn: Connection,
}

/// The arguments of the insert, in the order of its columns: source, title,
/// address, icon, publication time.
pub open spec fn upsert_args(item: ContentItem) -> Seq<Seq<char>> {
    seq![item.source@, item.title@, item.url@, item.icon@, item.published_at@]
}

/// The item that a row of the unread query describes: its columns are title,
/// address, source, icon and publication time.
pub open spec fn item_of_row(row: Seq<String>) -> ContentItem {
    ContentItem { title: row[0], url: row[1], source: row[2], icon: row[3], published_at: row[4] }
}

/// The modifier for SQLite's `datetime('now', ...)` that goes back
/// `ttl_minutes` minutes.
pub open spec fn age_modifier(ttl_minutes: u64) -> Seq<char> {
    "-"@ + decimal(ttl_minutes as nat) + " minutes"@
}

/// The arguments of the insert for an item.
pub fn upsert_arguments(item: &ContentItem) -> (r: Vec<String>)
    ensures
        r@.map_values(|s: String| s@) == upsert_args(*item),
{
    let mut v: Vec<String> = Vec::new();
    v.push(item.source.clone());
    v.push(item.title.clone());
    v.push(item.url.clone());
    v.push(item.icon.clone());
    v.push(item.published_at.clone());
    proof {
        assert(v@.map_values(|s: String| s@) =~= upsert_args(*item));
    }
    v
}

/// The item that a row of the unread query describes.
pub fn item_from_row(row: Vec<String>) -> (r: ContentItem)
    requires
        row@.len() == 5,
    ensures
        r == item_of_row(row@),
{
    let mut row = row;
    let published_at = row.pop().unwrap();
    let icon = row.pop().unwrap();
    let source = row.pop().unwrap();
    let url = row.pop().unwrap();
    let title = row.pop().unwrap();
    ContentItem { title, url, source, icon, published_at }
}

/// The items that rows of the unread query describe, one for each row, in
/// the order of the rows.
pub fn items_from_rows(rows: Vec<Vec<String>>) -> (r: Vec<ContentItem>)
    requires
        forall|i: int| 0 <= i < rows@.len() ==> #[trigger] rows@[i]@.len() == 5,
    ensures
        r@ == rows@.map_values(|row: Vec<String>| item_of_row(row@)),
{
    let ghost orig = rows@;
    let mut rest = rows;
    let mut items: Vec<ContentItem> = Vec::new();
    let ghost mut i: int = 0;
    while rest.len() > 0
        invariant
            0 <= i <= orig.len(),
            rest@ == orig.skip(i),
            forall|k: int| 0 <= k < orig.len() ==> #[trigger] orig[k]@.len() == 5,
            items@ == orig.take(i).map_values(|row: Vec<String>| item_of_row(row@)),
        decreases rest.len(),
    {
        let row = rest.remove(0);
        proof {
            assert(row == orig[i]);
        }
        let item = item_from_row(row);
        items.push(item);
        proof {
            assert(rest@ =~= orig.skip(i + 1));
            assert(orig.take(i + 1).map_values(|row: Vec<String>| item_of_row(row@))
                =~= orig.take(i).map_values(|row: Vec<String>| item_of_row(row@)).push(item));
            i = i + 1;
        }
    }
    proof {
        assert(orig.take(i) =~= orig);
    }
    items
}

/// The modifier that goes back `ttl_minutes` minutes, as
/// `format!("-{ttl_minutes} minutes")` writes it.
pub fn age_modifier_string(ttl_minutes: u64) -> (r: String)
    ensures
        r@ == age_modifier(ttl_minutes),
{
    String::from_str("-").concat(decimal_string(ttl_minutes).as_str()).concat(" minutes")
}

/// The table of cached items: each address once, with when it was fetched
/// and whether it was read.
pub open spec fn schema_sql() -> Seq<char> {
    "CREATE TABLE IF NOT EXISTS items (
                id INTEGER PRIMARY KEY AUTOINCREMENT,
                source TEXT NOT NULL,
                title TEXT NOT NULL,
                url TEXT NOT NULL UNIQUE,
                icon TEXT NOT NULL DEFAULT '',
                published_at TEXT NOT NULL DEFAULT '',
                fetched_at TEXT NOT NULL DEFAULT (datetime('now')),
                read INTEGER NOT NULL DEFAULT 0
            );"@
}

/// Stores an item unless its address is already stored; the arguments are
/// `upsert_args`.
pub open spec fn insert_sql() -> Seq<char> {
    "INSERT OR IGNORE INTO items (source, title, url, icon, published_at) VALUES (?1, ?2, ?3, ?4, ?5)"@
}

/// The unread items, most recently fetched first, at most `?1` of them.
pub open spec fn unread_sql() -> Seq<char> {
    "SELECT title, url, source, icon, published_at FROM items WHERE read = 0 ORDER BY fetched_at DESC LIMIT ?1"@
}

/// Deletes the items fetched before `datetime('now', ?1)`; the argument is
/// `age_modifier`.
pub open spec fn delete_old_sql() -> Seq<char> {
    "DELETE FROM items WHERE fetched_at < datetime('now', ?1)"@
}

/// The writes the library runs: the insert of an item, with its five
/// columns, and the delete of old items, with the modifier of some age.
pub open spec fn library_write(sql: Seq<char>, args: Seq<Seq<char>>) -> bool {
    ||| sql == insert_sql() && args.len() == 5
    ||| sql == delete_old_sql() && args.len() == 1 && exists|ttl: u64| args[0] == #[trigger] age_modifier(ttl)
}

/// Storing an item never replaces a stored one: the only write with an
/// item's five columns is an `INSERT OR IGNORE` into `items`, whose `url`
/// column is `UNIQUE`, so an item whose address is already stored is
/// ignored and the stored row (title, read flag, fetch time) stays as it is.
pub proof fn lemma_insert_keeps_stored_rows(sql: Seq<char>, args: Seq<Seq<char>>)
    requires
        library_write(sql, args),
        args.len() == 5,
    ensures
        sql == "INSERT OR IGNORE INTO items "@ + "(source, title, url, icon, published_at) VALUES (?1, ?2, ?3, ?4, ?5)"@,
        schema_sql().subrange(180, 204) == "url TEXT NOT NULL UNIQUE"@,
{
    reveal_strlit("INSERT OR IGNORE INTO items ");
    reveal_strlit("(source, title, url, icon, published_at) VALUES (?1, ?2, ?3, ?4, ?5)");
    reveal_strlit("INSERT OR IGNORE INTO items (source, title, url, icon, published_at) VALUES (?1, ?2, ?3, ?4, ?5)");
    reveal_strlit("DELETE FROM items WHERE fetched_at < datetime('now', ?1)");
    reveal_strlit("url TEXT NOT NULL UNIQUE");
    reveal_strlit("CREATE TABLE IF NOT EXISTS items (
                id INTEGER PRIMARY KEY AUTOINCREMENT,
                source TEXT NOT NULL,
                title TEXT NOT NULL,
                url TEXT NOT NULL UNIQUE,
                icon TEXT NOT NULL DEFAULT '',
                published_at TEXT NOT NULL DEFAULT '',
                fetched_at TEXT NOT NULL DEFAULT (datetime('now')),
                read INTEGER NOT NULL DEFAULT 0
            );");
    assert(insert_sql() != delete_old_sql()) by {
        assert(insert_sql()[0] != delete_old_sql()[0]);
    }
    assert(sql =~= "INSERT OR IGNORE INTO items "@ + "(source, title, url, icon, published_at) VALUES (?1, ?2, ?3, ?4, ?5)"@);
    assert(schema_sql().subrange(180, 204) =~= "url TEXT NOT NULL UNIQUE"@);
}

/// Expiry goes by age alone: the only write with one argument deletes the
/// rows whose `fetched_at` is before `datetime('now', ?1)`, whatever their
/// other columns (read or not), and `?1` goes back a whole number of
/// minutes.
pub proof fn lemma_delete_goes_by_age_alone(sql: Seq<char>, args: Seq<Seq<char>>)
    requires
        library_write(sql, args),
        args.len() == 1,
    ensures
        sql == "DELETE FROM items WHERE "@ + "fetched_at < datetime('now', ?1)"@,
        exists|ttl: u64| args[0] == "-"@ + decimal(ttl as nat) + " minutes"@,
{
    reveal_strlit("DELETE FROM items WHERE ");
    reveal_strlit("fetched_at < datetime('now', ?1)");
    reveal_strlit("DELETE FROM items WHERE fetched_at < datetime('now', ?1)");
    assert(sql =~= "DELETE FROM items WHERE "@ + "fetched_at < datetime('now', ?1)"@);
    let ttl = choose|ttl: u64| args[0] == #[trigger] age_modifier(ttl);
    assert(args[0] == "-"@ + decimal(ttl as nat) + " minutes"@);
}

/// The statement that creates the table.
pub fn schema_statement() -> (r: &'static str)
    ensures
        r@ == schema_sql(),
{
    "CREATE TABLE IF NOT EXISTS items (
                id INTEGER PRIMARY KEY AUTOINCREMENT,
                source TEXT NOT NULL,
                title TEXT NOT NULL,
                url TEXT NOT NULL UNIQUE,
                icon TEXT NOT NULL DEFAULT '',
                published_at TEXT NOT NULL DEFAULT '',
                fetched_at TEXT NOT NULL DEFAULT (datetime('now')),
                read INTEGER NOT NULL DEFAULT 0
            );"
}

/// The insert statement.
pub fn insert_statement() -> (r: &'static str)
    ensures
        r@ == insert_sql(),
{
    "INSERT OR IGNORE INTO items (source, title, url, icon, published_at) VALUES (?1, ?2, ?3, ?4, ?5)"
}

/// The unread query and the value bound to its `LIMIT`, `limit as i64`.
pub fn unread_statement(limit: usize) -> (r: (&'static str, i64))
    ensures
        r.0@ == unread_sql(),
        r.1 == limit as i64,
{
    ("SELECT title, url, source, icon, published_at FROM items WHERE read = 0 ORDER BY fetched_at DESC LIMIT ?1", limit as i64)
}

/// The statement that deletes old items.
pub fn delete_old_statement() -> (r: &'static str)
    ensures
        r@ == delete_old_sql(),
{
    "DELETE FROM items WHERE fetched_at < datetime('now', ?1)"
}

fn create_table(conn: &Connection) -> (r: Result<(), CacheError>) {
    match execute_batch(conn, schema_statement()) {
        Ok(()) => Ok(()),
        Err(e) => Err(CacheError::Sqlite(e)),
    }
}

impl Cache {
    /// Opens the database file at `db_path` and makes sure the table exists;
    /// a path with a NUL character cannot name a file and gives an error.
    pub fn open(db_path: &str) -> (r: Result<Cache, CacheError>)
        ensures
            db_path@.contains('\0') ==> r is Err,
    {
        match open_connection(db_path) {
            Ok(conn) => {
                match create_table(&conn) {
                    Ok(()) => Ok(Cache { conn }),
                    Err(e) => Err(e),
                }
            },
            Err(e) => Err(CacheError::Sqlite(e)),
        }
    }

    /// A cache in memory, with the table.
    pub fn open_in_memory() -> (r: Result<Cache, CacheError>) {
        match open_connection_in_memory() {
            Ok(conn) => {
                match create_table(&conn) {
                    Ok(()) => Ok(Cache { conn }),
                    Err(e) => Err(e),
                }
            },
            Err(e) => Err(CacheError::Sqlite(e)),
        }
    }

    /// Stores the item unless an item with its address is already stored.
    pub fn upsert(&self, item: &ContentItem) -> (r: Result<(), CacheError>) {
        let args = upsert_arguments(item);
        match execute(&self.conn, insert_statement(), &args) {
            Ok(_) => Ok(()),
            Err(e) => Err(CacheError::Sqlite(e)),
        }
    }

    /// The rows of the unread query, each as its five text columns, at most
    /// `limit` of them, in the order SQLite returns them. Which rows come
    /// back depends on the database; the statement and its argument are
    /// those of `unread_statement(limit)`.
    fn unread_rows(&self, limit: usize) -> (r: Result<Vec<Vec<String>>, CacheError>)
        ensures
            r matches Ok(rows) ==> rows@.len() <= limit && forall|i: int|
                0 <= i < rows@.len() ==> #[trigger] rows@[i]@.len() == 5,
    {
        let (sql, bound) = unread_statement(limit);
        let mut stmt = match prepare(&self.conn, sql) {
            Ok(stmt) => stmt,
            Err(e) => return Err(CacheError::Sqlite(e)),
        };
        let mut rows = match query(&mut stmt, bound) {
            Ok(rows) => rows,
            Err(e) => return Err(CacheError::Sqlite(e)),
        };
        let mut read: Vec<Vec<String>> = Vec::new();
        while read.len() < limit
            invariant
                read@.len() <= limit,
                forall|i: int| 0 <= i < read@.len() ==> #[trigger] read@[i]@.len() == 5,
            decreases limit - read@.len(),
        {
            let row = match next_row(&mut rows) {
                Ok(Some(row)) => row,
                Ok(None) => break,
                Err(e) => return Err(CacheError::Sqlite(e)),
            };
            let mut columns: Vec<String> = Vec::new();
            let mut i: usize = 0;
            while i < 5
                invariant
                    i <= 5,
                    columns@.len() == i,
                decreases 5 - i,
            {
                match column_text(row, i) {
                    Ok(text) => columns.push(text),
                    Err(e) => return Err(CacheError::Sqlite(e)),
                }
                i = i + 1;
            }
            read.push(columns);
        }
        Ok(read)
    }

    /// Up to `limit` unread items, the most recently fetched first: the
    /// items that `items_from_rows` makes of the rows SQLite returns for
    /// `unread_statement(limit)`.
    pub fn get_unread(&self, limit: usize) -> (r: Result<Vec<ContentItem>, CacheError>)
        ensures
            r matches Ok(items) ==> items@.len() <= limit,
    {
        match self.unread_rows(limit) {
            Ok(rows) => Ok(items_from_rows(rows)),
            Err(e) => Err(e),
        }
    }

    /// Deletes the items fetched more than `ttl_minutes` minutes ago.
    pub fn cleanup_old(&self, ttl_minutes: u64) -> (r: Result<(), CacheError>) {
        let mut args: Vec<String> = Vec::new();
        args.push(age_modifier_string(ttl_minutes));
        proof {
            assert(args@.map_values(|s: String| s@)[0] == age_modifier(ttl_minutes));
        }
        match execute(&self.conn, delete_old_statement(), &args) {
            Ok(_) => Ok(()),
            Err(e) => Err(CacheError::Sqlite(e)),
        }
    }
}

} // verus!
