//! The versioned migration sequence and its runner.
//!
//! The sequence is an append-only log of five steps; the store's
//! applied-version watermark is the consumer offset.  `migrations` renders
//! each step as the statement batch the embedded engine executes;
//! `apply_step` and `apply_all` give the steps their meaning on the store
//! model and prove what the runner guarantees: steps run in ascending order,
//! each at most once, each atomically.

use vstd::prelude::*;

use crate::rows::{HighlightRow, MigrationError};
use crate::schema::{schema_at, schema_for_version, LATEST_VERSION, REBUILD_VERSION};
use crate::store::{highlight_keys_distinct, Store};

verus! {

/// The statement batch of step 1: the document table.
pub const SQL_CREATE_PDFS_TABLE: &'static str = "CREATE TABLE IF NOT EXISTS pdfs (
  id INTEGER PRIMARY KEY AUTOINCREMENT,
  name TEXT NOT NULL,
  path TEXT NOT NULL,
  date_added DATETIME DEFAULT CURRENT_TIMESTAMP,
  last_opened DATETIME DEFAULT CURRENT_TIMESTAMP
);";

/// The statement batch of step 2: the highlight table.  The stable highlight
/// identifier is deliberately not yet unique-constrained here; step 5 closes
/// that gap.
pub const SQL_CREATE_HIGHLIGHTS_TABLE: &'static str = "CREATE TABLE IF NOT EXISTS highlights (
  id INTEGER PRIMARY KEY AUTOINCREMENT,
  pdf_id INTEGER NOT NULL,
  highlight_id TEXT NOT NULL,
  content_text TEXT,
  content_image TEXT,
  comment_text TEXT,
  comment_emoji TEXT,
  position_data TEXT NOT NULL,
  page_number INTEGER NOT NULL,
  created_at DATETIME DEFAULT CURRENT_TIMESTAMP,
  FOREIGN KEY (pdf_id) REFERENCES pdfs(id) ON DELETE CASCADE
);";

/// The statement batch of step 3: the tag table.
pub const SQL_CREATE_TAGS_TABLE: &'static str = "CREATE TABLE IF NOT EXISTS tags (
  id INTEGER PRIMARY KEY AUTOINCREMENT,
  name TEXT NOT NULL UNIQUE,
  created_at DATETIME DEFAULT CURRENT_TIMESTAMP
);";

/// The statement batch of step 4: the association table, keyed by the pair.
pub const SQL_CREATE_HIGHLIGHT_TAGS_TABLE: &'static str =
    "CREATE TABLE IF NOT EXISTS highlight_tags (
  highlight_id TEXT NOT NULL,
  tag_id INTEGER NOT NULL,
  PRIMARY KEY (highlight_id, tag_id),
  FOREIGN KEY (highlight_id) REFERENCES highlights(highlight_id) ON DELETE CASCADE,
  FOREIGN KEY (tag_id) REFERENCES tags(id) ON DELETE CASCADE
);";

/// The statement batch of step 5: rebuild the highlight table so that the
/// stable highlight identifier is unique.
///
/// The engine cannot add a UNIQUE constraint in place, so the step creates a
/// replacement table, copies every highlight row into it (which is where a
/// pre-existing duplicate makes the step fail, atomically), saves the
/// association rows aside, drops the dependent association table before the
/// old parent table, renames the replacement into place, recreates the
/// association table against the now-unique column, and restores its rows.
/// The leading drops make a retry safe after an interrupted earlier attempt
/// left a replacement table behind: they clear the leftovers before the
/// copy, so no second highlight table survives and no row is lost.
pub const SQL_REBUILD_HIGHLIGHTS_UNIQUE: &'static str = "DROP TABLE IF EXISTS highlights_new;
DROP TABLE IF EXISTS highlight_tags_saved;
CREATE TABLE highlights_new (
  id INTEGER PRIMARY KEY AUTOINCREMENT,
  pdf_id INTEGER NOT NULL,
  highlight_id TEXT NOT NULL UNIQUE,
  content_text TEXT,
  content_image TEXT,
  comment_text TEXT,
  comment_emoji TEXT,
  position_data TEXT NOT NULL,
  page_number INTEGER NOT NULL,
  created_at DATETIME DEFAULT CURRENT_TIMESTAMP,
  FOREIGN KEY (pdf_id) REFERENCES pdfs(id) ON DELETE CASCADE
);
INSERT INTO highlights_new SELECT * FROM highlights;
CREATE TABLE highlight_tags_saved (
  highlight_id TEXT NOT NULL,
  tag_id INTEGER NOT NULL
);
INSERT INTO highlight_tags_saved SELECT * FROM highlight_tags;
DROP TABLE IF EXISTS highlight_tags;
DROP TABLE highlights;
ALTER TABLE highlights_new RENAME TO highlights;
CREATE TABLE highlight_tags (
  highlight_id TEXT NOT NULL,
  tag_id INTEGER NOT NULL,
  PRIMARY KEY (highlight_id, tag_id),
  FOREIGN KEY (highlight_id) REFERENCES highlights(highlight_id) ON DELETE CASCADE,
  FOREIGN KEY (tag_id) REFERENCES tags(id) ON DELETE CASCADE
);
INSERT INTO highlight_tags SELECT * FROM highlight_tags_saved;
DROP TABLE highlight_tags_saved;";

/// The direction of a migration step.  Only forward steps exist: no
/// downgrade path is defined.
#[derive(Debug, Clone, Copy, PartialEq, Eq, Structural)]
pub enum MigrationDirection {
    /// A forward step.
    Up,
}

/// One migration step: a version, a human-readable description, a direction,
/// and the statement batch the embedded engine executes atomically.
#[derive(Debug, Clone, PartialEq, Eq)]
pub struct Migration {
    /// The strictly increasing version of the step.
    pub version: u32,
    /// A short description of what the step does.
    pub description: &'static str,
    /// The direction of the step.
    pub direction: MigrationDirection,
    /// The statement batch executed against the store as one atomic unit.
    pub sql: &'static str,
}

/// The declared migration sequence, in ascending version order.  A past
/// step's body is never edited once released; structural change arrives only
/// as a new step with the next version.
pub fn migrations() -> (r: Vec<Migration>)
    ensures
        r@.len() == LATEST_VERSION,
        forall|i: int| 0 <= i < r@.len() ==> (#[trigger] r@[i]).version == i + 1,
        forall|i: int|
            0 <= i < r@.len() ==> (#[trigger] r@[i]).direction == MigrationDirection::Up,
        r@[0].description@ == "create_pdfs_table"@ && r@[0].sql@ == SQL_CREATE_PDFS_TABLE@,
        r@[1].description@ == "create_highlights_table"@ && r@[1].sql@
            == SQL_CREATE_HIGHLIGHTS_TABLE@,
        r@[2].description@ == "create_tags_table"@ && r@[2].sql@ == SQL_CREATE_TAGS_TABLE@,
        r@[3].description@ == "create_highlight_tags_table"@ && r@[3].sql@
            == SQL_CREATE_HIGHLIGHT_TAGS_TABLE@,
        r@[4].description@ == "add_unique_constraint_to_highlight_id"@ && r@[4].sql@
            == SQL_REBUILD_HIGHLIGHTS_UNIQUE@,
{
    let list: Vec<Migration> = vec![
        Migration {
            version: 1,
            description: "create_pdfs_table",
            direction: MigrationDirection::Up,
            sql: SQL_CREATE_PDFS_TABLE,
        },
        Migration {
            version: 2,
            description: "create_highlights_table",
            direction: MigrationDirection::Up,
            sql: SQL_CREATE_HIGHLIGHTS_TABLE,
        },
        Migration {
            version: 3,
            description: "create_tags_table",
            direction: MigrationDirection::Up,
            sql: SQL_CREATE_TAGS_TABLE,
        },
        Migration {
            version: 4,
            description: "create_highlight_tags_table",
            direction: MigrationDirection::Up,
            sql: SQL_CREATE_HIGHLIGHT_TAGS_TABLE,
        },
        Migration {
            version: 5,
            description: "add_unique_constraint_to_highlight_id",
            direction: MigrationDirection::Up,
            sql: SQL_REBUILD_HIGHLIGHTS_UNIQUE,
        },
    ];
    proof {
        assert forall|i: int| 0 <= i < list@.len() implies (#[trigger] list@[i]).version == i
            + 1 by {
            assert(list@[0].version == 1);
            assert(list@[1].version == 2);
            assert(list@[2].version == 3);
            assert(list@[3].version == 4);
            assert(list@[4].version == 5);
        }
    }
    list
}

/// Whether running the whole sequence on `s` succeeds: it does unless the
/// rebuild step still has to run and two highlights share a stable
/// identifier.
pub open spec fn migrate_ok(s: Store) -> bool {
    s.version >= LATEST_VERSION || highlight_keys_distinct(s.highlights@)
}

/// No migration step touches data: every table and every counter of `post`
/// is that of `pre`.
pub open spec fn data_unchanged(pre: Store, post: Store) -> bool {
    &&& post.pdfs@ == pre.pdfs@
    &&& post.highlights@ == pre.highlights@
    &&& post.tags@ == pre.tags@
    &&& post.highlight_tags@ == pre.highlight_tags@
    &&& post.next_document_id == pre.next_document_id
    &&& post.next_highlight_row_id == pre.next_highlight_row_id
    &&& post.next_tag_id == pre.next_tag_id
}

/// Running the whole sequence on `pre` yields `post`: data is untouched, and
/// the watermark reaches the latest version on success and stays at the
/// version before the rebuild step on failure.
pub open spec fn migrates_to(pre: Store, post: Store) -> bool {
    &&& data_unchanged(pre, post)
    &&& post.version as int == if migrate_ok(pre) {
        LATEST_VERSION as int
    } else {
        REBUILD_VERSION - 1
    }
    &&& post.schema == schema_at(post.version)
}

/// The versions a run applies to a store whose watermark is `watermark` and
/// which it carries up to version `upto`: the versions after the watermark,
/// in ascending order.
pub open spec fn versions_between(watermark: u32, upto: int) -> Seq<u32> {
    if upto <= watermark {
        Seq::empty()
    } else {
        Seq::new((upto - watermark) as nat, |i: int| (watermark + 1 + i) as u32)
    }
}

/// The versions a full run applies to a store whose watermark is
/// `watermark`.
pub open spec fn versions_after(watermark: u32) -> Seq<u32> {
    versions_between(watermark, LATEST_VERSION as int)
}

/// Searches `rows` for two distinct rows carrying the same stable highlight
/// identifier: the validation the rebuild step runs before it commits.
pub fn find_duplicate_highlight_key(rows: &Vec<HighlightRow>) -> (r: Option<(usize, usize)>)
    ensures
        r matches Some(p) ==> p.0 < p.1 < rows@.len() && rows@[p.0 as int].highlight_id@
            == rows@[p.1 as int].highlight_id@,
        r is None ==> highlight_keys_distinct(rows@),
{
    let n = rows.len();
    let mut i: usize = 0;
    while i < n
        invariant
            i <= n,
            n == rows@.len(),
            forall|a: int, b: int|
                0 <= a < b < rows@.len() && a < i ==> rows@[a].highlight_id@
                    != rows@[b].highlight_id@,
        decreases n - i,
    {
        let mut j: usize = i + 1;
        while j < n
            invariant
                i < j <= n,
                i < n,
                n == rows@.len(),
                forall|b: int| i < b < j ==> rows@[i as int].highlight_id@ != rows@[b].highlight_id@,
            decreases n - j,
        {
            if rows[i].highlight_id == rows[j].highlight_id {
                return Some((i, j));
            }
            j += 1;
        }
        i += 1;
    }
    None
}

impl Store {
    /// Applies the single step `version` to a store whose watermark stands
    /// one below it.  Steps before the rebuild always succeed and only
    /// extend the schema; the rebuild step succeeds exactly when no two
    /// highlights share a stable identifier, and on failure the store is
    /// untouched: the step is atomic.
    pub fn apply_step(&mut self, version: u32) -> (r: Result<(), MigrationError>)
        requires
            old(self).wf(),
            old(self).version + 1 == version,
            version <= LATEST_VERSION,
        ensures
            final(self).wf(),
            data_unchanged(*old(self), *final(self)),
            r.is_ok() == (version < REBUILD_VERSION || highlight_keys_distinct(
                old(self).highlights@,
            )),
            r.is_ok() ==> final(self).version == version && final(self).schema == schema_at(
                version,
            ),
            r matches Err(e) ==> *final(self) == *old(self) && e.version == version,
    {
        if version < REBUILD_VERSION {
            self.schema = schema_for_version(version);
            self.version = version;
            proof {
                crate::store::lemma_unchanged_doc_refs(*old(self), *self);
                crate::store::lemma_unchanged_assoc_highlight_refs(*old(self), *self);
                crate::store::lemma_unchanged_assoc_tag_refs(*old(self), *self);
            }
            Ok(())
        } else {
            self.rebuild_highlights_unique()
        }
    }

    /// The rebuild step: retrofits uniqueness of the stable highlight
    /// identifier.  In the model the rows themselves are already in place,
    /// so the step validates them — it fails, leaving the store untouched,
    /// exactly when two highlights share an identifier — and on success
    /// records the constraint and advances the watermark.  Every highlight
    /// row and every association row survives unchanged.
    pub fn rebuild_highlights_unique(&mut self) -> (r: Result<(), MigrationError>)
        requires
            old(self).wf(),
            old(self).version + 1 == REBUILD_VERSION,
        ensures
            final(self).wf(),
            data_unchanged(*old(self), *final(self)),
            r.is_ok() == highlight_keys_distinct(old(self).highlights@),
            r.is_ok() ==> final(self).version == REBUILD_VERSION && final(self).schema
                == schema_at(REBUILD_VERSION),
            r matches Err(e) ==> *final(self) == *old(self) && e.version == REBUILD_VERSION,
    {
        match find_duplicate_highlight_key(&self.highlights) {
            Some(_) => Err(MigrationError { version: REBUILD_VERSION }),
            None => {
                self.schema.highlight_id_unique = true;
                self.version = REBUILD_VERSION;
                proof {
                    crate::store::lemma_unchanged_doc_refs(*old(self), *self);
                    crate::store::lemma_unchanged_assoc_highlight_refs(*old(self), *self);
                    crate::store::lemma_unchanged_assoc_tag_refs(*old(self), *self);
                }
                Ok(())
            },
        }
    }

    /// Applies every step whose version lies above the store's watermark, in
    /// ascending version order, never re-running an applied step, and
    /// advancing the watermark step by step.  Returns the versions it
    /// applied, or the error of the step that failed — in which case the
    /// store stands consistent at the last committed version and startup
    /// must not proceed.
    pub fn apply_all(&mut self) -> (r: Result<Vec<u32>, MigrationError>)
        requires
            old(self).wf(),
        ensures
            final(self).wf(),
            migrates_to(*old(self), *final(self)),
            r.is_ok() == migrate_ok(*old(self)),
            r matches Ok(applied) ==> applied@ == versions_after(old(self).version),
            r matches Err(e) ==> e.version == REBUILD_VERSION && old(self).version
                < REBUILD_VERSION,
    {
        let mut applied: Vec<u32> = Vec::new();
        let mut v: u32 = 1;
        while v <= LATEST_VERSION
            invariant
                old(self).wf(),
                self.wf(),
                1 <= v <= LATEST_VERSION + 1,
                data_unchanged(*old(self), *self),
                self.version as int == if old(self).version as int >= v as int - 1 {
                    old(self).version as int
                } else {
                    v as int - 1
                },
                applied@ == versions_between(old(self).version, v as int - 1),
                v as int > REBUILD_VERSION as int ==> migrate_ok(*old(self)),
            decreases LATEST_VERSION + 1 - v,
        {
            if self.version < v {
                let ghost w = old(self).version;
                match self.apply_step(v) {
                    Ok(()) => {
                        applied.push(v);
                        proof {
                            assert(w as int <= v as int - 1);
                            assert(versions_between(w, v as int) =~= versions_between(
                                w,
                                v as int - 1,
                            ).push(v));
                        }
                    },
                    Err(e) => {
                        proof {
                            assert(v == REBUILD_VERSION);
                            assert(!highlight_keys_distinct(old(self).highlights@));
                            assert(!migrate_ok(*old(self)));
                        }
                        return Err(e);
                    },
                }
            } else {
                proof {
                    assert(old(self).version as int >= v as int);
                    assert(versions_between(old(self).version, v as int) =~= versions_between(
                        old(self).version,
                        v as int - 1,
                    ));
                }
            }
            v = v + 1;
        }
        proof {
            assert(self.version == LATEST_VERSION);
            assert(migrate_ok(*old(self)));
        }
        Ok(applied)
    }
}

} // verus!
