//! The relational index over resources: full-text rows, tag rows and one
//! row per resource, kept in a local SQLite database through rusqlite.
//!
//! The database is modelled by three row sets ([`db_resources`],
//! [`db_tags`], [`db_fts`]); every SQL statement runs behind a trusted
//! wrapper whose contract says how it moves those sets.

use vstd::prelude::*;

use crate::fts::{extract_text, extract_succeeds, json_indexer, text_plain_indexer, IndexerError};
use crate::resource::{ResourceId, VariantMetadata};
use crate::strutil::str_eq;
use crate::strutil::str_ends_with;

verus! {

#[verifier::external_type_specification]
#[verifier::external_body]
pub struct ExConnection(rusqlite::Connection);

/// One row of the full-text table.
#[verifier::ext_equal]
pub struct FtsRowV {
    pub id: Seq<char>,
    pub variant: Seq<char>,
    pub content: Seq<char>,
}

/// The distinct ids in the `resources` table of this connection's database.
pub uninterp spec fn db_resources(c: rusqlite::Connection) -> Set<Seq<char>>;

/// The distinct (id, tag) rows in the `tags` table.
pub uninterp spec fn db_tags(c: rusqlite::Connection) -> Set<(Seq<char>, Seq<char>)>;

/// The distinct (id, variant, content) rows in the `fts` table.
pub uninterp spec fn db_fts(c: rusqlite::Connection) -> Set<FtsRowV>;

/// What secular's `lower_lay_string` returns: the text with each character
/// lowercased and stripped of diacritics.
pub uninterp spec fn folded(s: Seq<char>) -> Seq<char>;

/// Whether SQLite's `LIKE` finds `needle` inside `content`, with a `%` on
/// both sides of the pattern.
pub uninterp spec fn like_contains(content: Seq<char>, needle: Seq<char>) -> bool;

/// Some entry of the list views to this id.
pub open spec fn id_listed(ids: Seq<String>, id: Seq<char>) -> bool {
    exists|i: int| 0 <= i < ids.len() && ids[i]@ == id
}

/// Some entry of the list views to this id.
pub open spec fn rid_listed(ids: Seq<ResourceId>, id: Seq<char>) -> bool {
    exists|i: int| 0 <= i < ids.len() && ids[i]@ == id
}

/// Some full-text row of this id's has the needle, by SQLite's `LIKE`.
pub open spec fn fts_hit(fts: Set<FtsRowV>, id: Seq<char>, needle: Seq<char>) -> bool {
    exists|row: FtsRowV|
        #[trigger] fts.contains(row) && row.id == id && like_contains(row.content, needle)
}

/// The whole state of one index database.
#[verifier::ext_equal]
pub struct IndexV {
    pub resources: Set<Seq<char>>,
    pub tags: Set<(Seq<char>, Seq<char>)>,
    pub fts: Set<FtsRowV>,
}

/// Index failures.
#[derive(Debug)]
pub enum SqliteDbError {
    /// The database reported an error; its message is kept.
    Rusqlite(String),
    /// The stored schema version cannot be upgraded from/to.
    SchemaUpgrade(u32, u32),
    /// A full-text extractor failed.
    Indexer(IndexerError),
}

/// Relies on rusqlite's Connection::open: opens or creates the database
/// file at this path.
#[verifier::external_body]
fn sql_open(path: &str) -> (r: Result<rusqlite::Connection, SqliteDbError>)
{
    rusqlite::Connection::open(path).map_err(|e| SqliteDbError::Rusqlite(e.to_string()))
}

/// Relies on rusqlite's Connection::query_row reading `user_version`.
#[verifier::external_body]
fn sql_user_version(conn: &rusqlite::Connection) -> (r: Result<u32, SqliteDbError>)
{
    conn.query_row("SELECT user_version FROM pragma_user_version", [], |row| row.get(0))
        .map_err(|e| SqliteDbError::Rusqlite(e.to_string()))
}

/// Relies on rusqlite's Connection::execute_batch: creates the version-1
/// schema in one transaction and stamps `user_version`.  DDL statements do
/// not change the rows of already-existing tables.
#[verifier::external_body]
fn sql_apply_schema_v1(conn: &mut rusqlite::Connection) -> (r: Result<(), SqliteDbError>)
    ensures
        r is Ok ==> db_resources(*final(conn)) == db_resources(*old(conn)) && db_tags(
            *final(conn),
        ) == db_tags(*old(conn)) && db_fts(*final(conn)) == db_fts(*old(conn)),
{
    conn.execute_batch(
        "BEGIN IMMEDIATE;
         CREATE TABLE IF NOT EXISTS resources(
             id       TEXT     PRIMARY KEY NOT NULL,
             frecency INTEGER,
             modified DATETIME NOT NULL
         );
         CREATE INDEX IF NOT EXISTS idx_resource_modified ON resources(modified);
         CREATE TABLE IF NOT EXISTS tags(
             id  TEXT KEY NOT NULL,
             tag TEXT NOT NULL,
             FOREIGN KEY(id) REFERENCES resources(id) ON DELETE CASCADE
         );
         CREATE INDEX IF NOT EXISTS idx_tag_name ON tags(tag);
         CREATE VIRTUAL TABLE fts USING fts5(id UNINDEXED, variant UNINDEXED, content, tokenize=\"trigram\");
         PRAGMA user_version = 1;
         COMMIT;",
    ).map_err(|e| SqliteDbError::Rusqlite(e.to_string()))
}

/// Relies on rusqlite's Connection::pragma_update: switching the journal
/// mode to WAL does not touch any table row.
#[verifier::external_body]
fn sql_set_wal(conn: &mut rusqlite::Connection) -> (r: Result<(), SqliteDbError>)
    ensures
        db_resources(*final(conn)) == db_resources(*old(conn)),
        db_tags(*final(conn)) == db_tags(*old(conn)),
        db_fts(*final(conn)) == db_fts(*old(conn)),
{
    conn.pragma_update(None, "journal_mode", "WAL".to_string())
        .map_err(|e| SqliteDbError::Rusqlite(e.to_string()))
}

/// Relies on rusqlite's Connection::execute running one INSERT into
/// `resources`: it succeeds only when the primary key `id` is new, and a
/// failed statement changes nothing.
#[verifier::external_body]
fn sql_insert_resource(conn: &mut rusqlite::Connection, id: &str, now: &str) -> (r: Result<
    (),
    SqliteDbError,
>)
    ensures
        r is Ok ==> !db_resources(*old(conn)).contains(id@) && db_resources(*final(conn))
            == db_resources(*old(conn)).insert(id@),
        r is Err ==> db_resources(*final(conn)) == db_resources(*old(conn)),
        db_tags(*final(conn)) == db_tags(*old(conn)),
        db_fts(*final(conn)) == db_fts(*old(conn)),
{
    conn.execute(
        "INSERT INTO resources (id, frecency, modified) VALUES (?1, ?2, ?3)",
        (id, 0i64, now),
    ).map(|_| ()).map_err(|e| SqliteDbError::Rusqlite(e.to_string()))
}

/// Relies on rusqlite's Connection::execute running one DELETE on
/// `resources` by id; a failed statement changes nothing.
#[verifier::external_body]
fn sql_delete_resource(conn: &mut rusqlite::Connection, id: &str) -> (r: Result<
    (),
    SqliteDbError,
>)
    ensures
        r is Ok ==> db_resources(*final(conn)) == db_resources(*old(conn)).remove(id@),
        r is Err ==> db_resources(*final(conn)) == db_resources(*old(conn)),
        db_tags(*final(conn)) == db_tags(*old(conn)),
        db_fts(*final(conn)) == db_fts(*old(conn)),
{
    conn.execute("DELETE FROM resources WHERE id = ?", [id])
        .map(|_| ()).map_err(|e| SqliteDbError::Rusqlite(e.to_string()))
}

/// Relies on rusqlite's Connection::execute running one DELETE on `fts`
/// by id; a failed statement changes nothing.
#[verifier::external_body]
fn sql_delete_fts_by_id(conn: &mut rusqlite::Connection, id: &str) -> (r: Result<
    (),
    SqliteDbError,
>)
    ensures
        r is Ok ==> db_fts(*final(conn)) == Set::new(
            |row: FtsRowV| db_fts(*old(conn)).contains(row) && row.id != id@,
        ),
        r is Err ==> db_fts(*final(conn)) == db_fts(*old(conn)),
        db_resources(*final(conn)) == db_resources(*old(conn)),
        db_tags(*final(conn)) == db_tags(*old(conn)),
{
    conn.execute("DELETE FROM fts WHERE id = ?", [id])
        .map(|_| ()).map_err(|e| SqliteDbError::Rusqlite(e.to_string()))
}

/// Relies on rusqlite's Connection::execute running one DELETE on `tags`
/// by id; a failed statement changes nothing.
#[verifier::external_body]
fn sql_delete_tags_by_id(conn: &mut rusqlite::Connection, id: &str) -> (r: Result<
    (),
    SqliteDbError,
>)
    ensures
        r is Ok ==> db_tags(*final(conn)) == Set::new(
            |row: (Seq<char>, Seq<char>)| db_tags(*old(conn)).contains(row) && row.0 != id@,
        ),
        r is Err ==> db_tags(*final(conn)) == db_tags(*old(conn)),
        db_resources(*final(conn)) == db_resources(*old(conn)),
        db_fts(*final(conn)) == db_fts(*old(conn)),
{
    conn.execute("DELETE FROM tags WHERE id = ?", [id])
        .map(|_| ()).map_err(|e| SqliteDbError::Rusqlite(e.to_string()))
}

/// Relies on rusqlite's Connection::execute running one DELETE on `fts`
/// by id and variant; a failed statement changes nothing.
#[verifier::external_body]
fn sql_delete_fts_by_id_variant(conn: &mut rusqlite::Connection, id: &str, variant: &str) -> (r:
    Result<(), SqliteDbError>)
    ensures
        r is Ok ==> db_fts(*final(conn)) == Set::new(
            |row: FtsRowV|
                db_fts(*old(conn)).contains(row) && !(row.id == id@ && row.variant == variant@),
        ),
        r is Err ==> db_fts(*final(conn)) == db_fts(*old(conn)),
        db_resources(*final(conn)) == db_resources(*old(conn)),
        db_tags(*final(conn)) == db_tags(*old(conn)),
{
    conn.execute("DELETE FROM fts WHERE id = ?1 AND variant = ?2", (id, variant))
        .map(|_| ()).map_err(|e| SqliteDbError::Rusqlite(e.to_string()))
}

/// Relies on rusqlite's Connection::execute running one INSERT into
/// `tags`; a failed statement changes nothing.
#[verifier::external_body]
fn sql_insert_tag(conn: &mut rusqlite::Connection, id: &str, tag: &str) -> (r: Result<
    (),
    SqliteDbError,
>)
    ensures
        r is Ok ==> db_tags(*final(conn)) == db_tags(*old(conn)).insert((id@, tag@)),
        r is Err ==> db_tags(*final(conn)) == db_tags(*old(conn)),
        db_resources(*final(conn)) == db_resources(*old(conn)),
        db_fts(*final(conn)) == db_fts(*old(conn)),
{
    conn.execute("INSERT INTO tags (id, tag) VALUES (?1, ?2)", (id, tag))
        .map(|_| ()).map_err(|e| SqliteDbError::Rusqlite(e.to_string()))
}

/// Relies on rusqlite's Connection::execute running one DELETE on `tags`
/// by id and tag; a failed statement changes nothing.
#[verifier::external_body]
fn sql_delete_tag(conn: &mut rusqlite::Connection, id: &str, tag: &str) -> (r: Result<
    (),
    SqliteDbError,
>)
    ensures
        r is Ok ==> db_tags(*final(conn)) == db_tags(*old(conn)).remove((id@, tag@)),
        r is Err ==> db_tags(*final(conn)) == db_tags(*old(conn)),
        db_resources(*final(conn)) == db_resources(*old(conn)),
        db_fts(*final(conn)) == db_fts(*old(conn)),
{
    conn.execute("DELETE FROM tags WHERE id = ?1 AND tag = ?2", (id, tag))
        .map(|_| ()).map_err(|e| SqliteDbError::Rusqlite(e.to_string()))
}

/// Relies on rusqlite's Connection::execute running one INSERT into
/// `fts`; a failed statement changes nothing.
#[verifier::external_body]
fn sql_insert_fts(conn: &mut rusqlite::Connection, id: &str, variant: &str, content: &str) -> (r:
    Result<(), SqliteDbError>)
    ensures
        r is Ok ==> db_fts(*final(conn)) == db_fts(*old(conn)).insert(
            FtsRowV { id: id@, variant: variant@, content: content@ },
        ),
        r is Err ==> db_fts(*final(conn)) == db_fts(*old(conn)),
        db_resources(*final(conn)) == db_resources(*old(conn)),
        db_tags(*final(conn)) == db_tags(*old(conn)),
{
    conn.execute(
        "INSERT INTO fts (id, variant, content) VALUES (?1, ?2, ?3)",
        (id, variant, content),
    ).map(|_| ()).map_err(|e| SqliteDbError::Rusqlite(e.to_string()))
}

/// Relies on rusqlite's prepare/query: SELECT DISTINCT id FROM fts WHERE
/// content LIKE the needle wrapped in `%`.  The ids come back distinct;
/// their order is not specified.
#[verifier::external_body]
fn sql_search_ids(conn: &rusqlite::Connection, needle: &str) -> (r: Result<
    Vec<String>,
    SqliteDbError,
>)
    ensures
        r is Ok ==> forall|id: Seq<char>|
            #[trigger] id_listed(r.unwrap()@, id) <==> fts_hit(db_fts(*conn), id, needle@),
        r is Ok ==> forall|row: FtsRowV|
            #[trigger] db_fts(*conn).contains(row) && like_contains(row.content, needle@)
                ==> id_listed(r.unwrap()@, row.id),
        r is Ok ==> forall|i: int, j: int|
            0 <= i < j < r.unwrap()@.len() ==> r.unwrap()@[i]@ != r.unwrap()@[j]@,
{
    let run = || -> Result<Vec<String>, rusqlite::Error> {
        let pattern = format!("%{}%", needle);
        let mut stmt = conn.prepare("SELECT DISTINCT id from fts WHERE content LIKE ?")?;
        let rows = stmt.query_map([pattern], |row| row.get::<_, String>(0))?;
        rows.collect()
    };
    run().map_err(|e| SqliteDbError::Rusqlite(e.to_string()))
}

/// Relies on chrono's Utc::now for the `modified` column.
#[verifier::external_body]
fn now_string() -> String {
    chrono::Utc::now().to_rfc3339()
}

/// Relies on secular's lower_lay_string: each character is replaced by its
/// lowercased, diacritics-free version, so the length in characters is kept
/// and the result depends on the input characters alone.
#[verifier::external_body]
fn fold_text(s: &str) -> (r: String)
    ensures
        r@ == folded(s@),
        r@.len() == s@.len(),
{
    secular::lower_lay_string(s)
}

/// The resource index: full-text rows, tag rows and one row per resource,
/// in a SQLite database, plus the dirty flag the coordinator reads.
pub struct Indexer {
    conn: rusqlite::Connection,
    should_update: bool,
}

impl Indexer {
    /// The three row sets of the underlying database.
    pub closed spec fn contents(&self) -> IndexV {
        IndexV {
            resources: db_resources(self.conn),
            tags: db_tags(self.conn),
            fts: db_fts(self.conn),
        }
    }

    /// Whether a mutation happened since the last snapshot.
    pub closed spec fn dirty(&self) -> bool {
        self.should_update
    }

    /// Open or create the database at this path and migrate its schema.
    pub fn new(db_path: &str) -> (r: Result<Indexer, SqliteDbError>)
        ensures
            r is Ok ==> !r.unwrap().dirty(),
    {
        let mut conn = sql_open(db_path)?;
        let mut version = sql_user_version(&conn)?;
        while version < 1
            invariant
                true,
            decreases 1int - version,
        {
            if version == 0 {
                sql_apply_schema_v1(&mut conn)?;
                version = 1;
            } else {
                return Err(SqliteDbError::SchemaUpgrade(version, version));
            }
        }
        sql_set_wal(&mut conn)?;
        Ok(Indexer { conn, should_update: false })
    }

    /// Insert the resource row for this id.
    pub fn add_resource(&mut self, id: &ResourceId) -> (r: Result<(), SqliteDbError>)
        ensures
            r is Ok ==> !old(self).contents().resources.contains(id@) && final(self).contents()
                == (IndexV {
                resources: old(self).contents().resources.insert(id@),
                ..old(self).contents()
            }) && final(self).dirty(),
            r is Err ==> final(self).contents() == old(self).contents() && final(self).dirty()
                == old(self).dirty(),
    {
        let now = now_string();
        let id_str = id.to_string();
        sql_insert_resource(&mut self.conn, id_str.as_str(), now.as_str())?;
        self.should_update = true;
        Ok(())
    }

    /// Delete the resource row, its full-text rows and its tag rows.
    pub fn delete_resource(&mut self, id: &ResourceId) -> (r: Result<(), SqliteDbError>)
        ensures
            r is Ok ==> final(self).contents() == (IndexV {
                resources: old(self).contents().resources.remove(id@),
                tags: Set::new(
                    |row: (Seq<char>, Seq<char>)|
                        old(self).contents().tags.contains(row) && row.0 != id@,
                ),
                fts: Set::new(
                    |row: FtsRowV| old(self).contents().fts.contains(row) && row.id != id@,
                ),
            }) && final(self).dirty(),
            r is Err ==> final(self).dirty() == old(self).dirty() && (final(self).contents().resources
                == old(self).contents().resources || final(self).contents().resources == old(
                self,
            ).contents().resources.remove(id@)) && (final(self).contents().fts == old(
                self,
            ).contents().fts || final(self).contents().fts == Set::new(
                |row: FtsRowV| old(self).contents().fts.contains(row) && row.id != id@,
            )) && final(self).contents().tags == old(self).contents().tags,
    {
        let id_str = id.to_string();
        sql_delete_resource(&mut self.conn, id_str.as_str())?;
        sql_delete_fts_by_id(&mut self.conn, id_str.as_str())?;
        sql_delete_tags_by_id(&mut self.conn, id_str.as_str())?;
        self.should_update = true;
        Ok(())
    }

    /// Delete the full-text rows of one variant.
    pub fn delete_variant(&mut self, id: &ResourceId, variant: &str) -> (r: Result<
        (),
        SqliteDbError,
    >)
        ensures
            r is Ok ==> final(self).contents() == (IndexV {
                fts: Set::new(
                    |row: FtsRowV|
                        old(self).contents().fts.contains(row) && !(row.id == id@ && row.variant
                            == variant@),
                ),
                ..old(self).contents()
            }) && final(self).dirty(),
            r is Err ==> final(self).contents() == old(self).contents() && final(self).dirty()
                == old(self).dirty(),
    {
        let id_str = id.to_string();
        sql_delete_fts_by_id_variant(&mut self.conn, id_str.as_str(), variant)?;
        self.should_update = true;
        Ok(())
    }

    /// Insert one tag row.
    pub fn add_tag(&mut self, id: &ResourceId, tag: &str) -> (r: Result<(), SqliteDbError>)
        ensures
            r is Ok ==> final(self).contents() == (IndexV {
                tags: old(self).contents().tags.insert((id@, tag@)),
                ..old(self).contents()
            }) && final(self).dirty(),
            r is Err ==> final(self).contents() == old(self).contents() && final(self).dirty()
                == old(self).dirty(),
    {
        let id_str = id.to_string();
        sql_insert_tag(&mut self.conn, id_str.as_str(), tag)?;
        self.should_update = true;
        Ok(())
    }

    /// Delete one tag row.
    pub fn remove_tag(&mut self, id: &ResourceId, tag: &str) -> (r: Result<(), SqliteDbError>)
        ensures
            r is Ok ==> final(self).contents() == (IndexV {
                tags: old(self).contents().tags.remove((id@, tag@)),
                ..old(self).contents()
            }) && final(self).dirty(),
            r is Err ==> final(self).contents() == old(self).contents() && final(self).dirty()
                == old(self).dirty(),
    {
        let id_str = id.to_string();
        sql_delete_tag(&mut self.conn, id_str.as_str(), tag)?;
        self.should_update = true;
        Ok(())
    }

    /// Insert one full-text row, after normalization.
    pub fn add_text(&mut self, id: &ResourceId, variant_name: &str, text: &str) -> (r: Result<
        (),
        SqliteDbError,
    >)
        ensures
            r is Ok ==> final(self).contents() == (IndexV {
                fts: old(self).contents().fts.insert(
                    FtsRowV { id: id@, variant: variant_name@, content: folded(text@) },
                ),
                ..old(self).contents()
            }) && final(self).dirty(),
            r is Err ==> final(self).contents() == old(self).contents() && final(self).dirty()
                == old(self).dirty(),
    {
        let content = fold_text(text);
        let id_str = id.to_string();
        sql_insert_fts(&mut self.conn, id_str.as_str(), variant_name, content.as_str())?;
        self.should_update = true;
        Ok(())
    }

    /// Run the extractor for this variant's MIME type over the content and
    /// insert what it returns, if anything.
    pub fn add_variant(
        &mut self,
        id: &ResourceId,
        variant_name: &str,
        variant: &VariantMetadata,
        content: &[u8],
    ) -> (r: Result<(), SqliteDbError>)
        ensures
            !extract_succeeds(variant@.mime_type, content@) ==> r is Err && r.unwrap_err()
                is Indexer && final(self).contents() == old(self).contents() && final(self).dirty()
                == old(self).dirty(),
            r is Ok ==> extract_succeeds(variant@.mime_type, content@) && match extract_text(
                variant@.mime_type,
                content@,
            ) {
                Some(t) => final(self).contents() == (IndexV {
                    fts: old(self).contents().fts.insert(
                        FtsRowV { id: id@, variant: variant_name@, content: folded(t) },
                    ),
                    ..old(self).contents()
                }) && final(self).dirty(),
                None => final(self).contents() == old(self).contents() && final(self).dirty()
                    == old(self).dirty(),
            },
            extract_succeeds(variant@.mime_type, content@) && extract_text(
                variant@.mime_type,
                content@,
            ) is None ==> r is Ok,
            r is Err ==> final(self).contents() == old(self).contents() && final(self).dirty()
                == old(self).dirty(),
    {
        let mime = variant.mime_type();
        let text: Option<String> = if str_ends_with(mime.as_str(), "json") {
            match json_indexer(content, mime.as_str()) {
                Ok(t) => Some(t),
                Err(e) => {
                    return Err(SqliteDbError::Indexer(e));
                },
            }
        } else if str_eq(mime.as_str(), "text/plain") {
            match text_plain_indexer(content) {
                Ok(t) => Some(t),
                Err(e) => {
                    return Err(SqliteDbError::Indexer(e));
                },
            }
        } else {
            None
        };
        match text {
            Some(t) => self.add_text(id, variant_name, t.as_str()),
            None => Ok(()),
        }
    }

    /// Replace a variant's full-text rows: delete them, then re-extract.
    pub fn update_variant(
        &mut self,
        id: &ResourceId,
        variant_name: &str,
        variant: &VariantMetadata,
        content: &[u8],
    ) -> (r: Result<(), SqliteDbError>)
        ensures
            r is Ok ==> extract_succeeds(variant@.mime_type, content@) && {
                let cleared = Set::new(
                    |row: FtsRowV|
                        old(self).contents().fts.contains(row) && !(row.id == id@ && row.variant
                            == variant_name@),
                );
                final(self).contents() == (IndexV {
                    fts: match extract_text(variant@.mime_type, content@) {
                        Some(t) => cleared.insert(
                            FtsRowV { id: id@, variant: variant_name@, content: folded(t) },
                        ),
                        None => cleared,
                    },
                    ..old(self).contents()
                }) && final(self).dirty()
            },
            r is Err ==> final(self).contents().resources == old(self).contents().resources
                && final(self).contents().tags == old(self).contents().tags && (final(self)
                .contents().fts == old(self).contents().fts || final(self).contents().fts == Set::new(
                |row: FtsRowV|
                    old(self).contents().fts.contains(row) && !(row.id == id@ && row.variant
                        == variant_name@),
            )),
    {
        self.delete_variant(id, variant_name)?;
        let r = self.add_variant(id, variant_name, variant, content);
        r
    }

    /// The distinct ids with a full-text row containing the normalized
    /// query.
    pub fn search(&self, text: &str) -> (r: Result<Vec<ResourceId>, SqliteDbError>)
        ensures
            r is Ok ==> forall|id: Seq<char>|
                #[trigger] rid_listed(r.unwrap()@, id) <==> fts_hit(
                    self.contents().fts,
                    id,
                    folded(text@),
                ),
            r is Ok ==> forall|i: int, j: int|
                0 <= i < j < r.unwrap()@.len() ==> r.unwrap()@[i]@ != r.unwrap()@[j]@,
    {
        let needle = fold_text(text);
        let ids = sql_search_ids(&self.conn, needle.as_str())?;
        let mut result: Vec<ResourceId> = Vec::new();
        let n = ids.len();
        let mut i: usize = 0;
        while i < n
            invariant
                0 <= i <= n,
                n == ids@.len(),
                result@.len() == i,
                forall|j: int| 0 <= j < i ==> result@[j]@ == ids@[j]@,
            decreases n - i,
        {
            result.push(ResourceId::from_string(ids[i].clone()));
            i += 1;
        }
        proof {
            assert forall|id: Seq<char>| #[trigger]
                rid_listed(result@, id) implies id_listed(ids@, id) by {
                let i2 = choose|i2: int| 0 <= i2 < result@.len() && result@[i2]@ == id;
                assert(ids@[i2]@ == id);
                assert(id_listed(ids@, id));
            }
            assert forall|id: Seq<char>| #[trigger]
                id_listed(ids@, id) implies rid_listed(result@, id) by {
                let i2 = choose|i2: int| 0 <= i2 < ids@.len() && ids@[i2]@ == id;
                assert(result@[i2]@ == id);
                assert(rid_listed(result@, id));
            }
            assert forall|id: Seq<char>| #[trigger]
                rid_listed(result@, id) == id_listed(ids@, id) by {
                assert(rid_listed(result@, id) ==> id_listed(ids@, id));
                assert(id_listed(ids@, id) ==> rid_listed(result@, id));
            }
        }
        Ok(result)
    }

    /// Note that the current state has been snapshot.
    pub fn set_updated(&mut self)
        ensures
            final(self).contents() == old(self).contents(),
            !final(self).dirty(),
    {
        self.should_update = false;
    }

    /// Whether a snapshot is owed.
    pub fn should_update(&self) -> (r: bool)
        ensures
            r == self.dirty(),
    {
        self.should_update
    }
}

} // verus!
