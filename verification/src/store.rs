//! The store model: four tables, an applied-version watermark, and the
//! auto-increment counters, together with the data operations the
//! application performs between startups.
//!
//! Every operation states exactly when it succeeds, which error it reports
//! otherwise, and how the new table contents relate to the old ones.  A
//! failed operation leaves the store unchanged.

use vstd::prelude::*;

use crate::rows::{DocumentRow, HighlightRow, HighlightTagRow, StoreError, TagRow};
use crate::schema::{schema_at, Schema, LATEST_VERSION};

verus! {

/// True when no two rows carry the same stable highlight identifier.
pub open spec fn highlight_keys_distinct(rows: Seq<HighlightRow>) -> bool {
    forall|i: int, j: int|
        0 <= i < j < rows.len() ==> rows[i].highlight_id@ != rows[j].highlight_id@
}

/// True when some row carries the stable highlight identifier `key`.
pub open spec fn seq_has_highlight_key(rows: Seq<HighlightRow>, key: Seq<char>) -> bool {
    exists|i: int| 0 <= i < rows.len() && rows[i].highlight_id@ == key
}

/// The rows of the document table that survive deleting document `id`.
pub open spec fn doc_id_not(id: u64) -> spec_fn(DocumentRow) -> bool {
    |d: DocumentRow| d.id != id
}

/// The rows of the tag table that survive deleting tag `id`.
pub open spec fn tag_id_not(id: u64) -> spec_fn(TagRow) -> bool {
    |t: TagRow| t.id != id
}

/// The rows of the highlight table that survive deleting document `id`.
pub open spec fn highlight_owner_not(id: u64) -> spec_fn(HighlightRow) -> bool {
    |h: HighlightRow| h.pdf_id != id
}

/// The rows of the highlight table that survive deleting the highlights with
/// stable identifier `key`.
pub open spec fn highlight_key_not(key: Seq<char>) -> spec_fn(HighlightRow) -> bool {
    |h: HighlightRow| h.highlight_id@ != key
}

/// The association rows that survive deleting tag `id`.
pub open spec fn assoc_tag_not(id: u64) -> spec_fn(HighlightTagRow) -> bool {
    |a: HighlightTagRow| a.tag_id != id
}

/// The association rows that survive deleting the highlights with stable
/// identifier `key`.
pub open spec fn assoc_key_not(key: Seq<char>) -> spec_fn(HighlightTagRow) -> bool {
    |a: HighlightTagRow| a.highlight_id@ != key
}

/// The association rows whose highlight still exists among `rows`: the ones a
/// cascading document delete keeps.
pub open spec fn assoc_key_live(rows: Seq<HighlightRow>) -> spec_fn(HighlightTagRow) -> bool {
    |a: HighlightTagRow| seq_has_highlight_key(rows, a.highlight_id@)
}

/// Deleting document `id` from `pre` yields `post`: the document's rows are
/// gone, its highlights are gone, associations of removed highlights are
/// gone, and nothing else changed.
pub open spec fn document_delete_effect(pre: Store, post: Store, id: u64) -> bool {
    &&& post.version == pre.version
    &&& post.schema == pre.schema
    &&& post.tags@ == pre.tags@
    &&& post.next_document_id == pre.next_document_id
    &&& post.next_highlight_row_id == pre.next_highlight_row_id
    &&& post.next_tag_id == pre.next_tag_id
    &&& post.pdfs@ == pre.pdfs@.filter(doc_id_not(id))
    &&& post.highlights@ == pre.highlights@.filter(highlight_owner_not(id))
    &&& post.highlight_tags@ == pre.highlight_tags@.filter(assoc_key_live(post.highlights@))
}

/// Deleting tag `id` from `pre` yields `post`: the tag's row and its
/// associations are gone, and nothing else — in particular no highlight —
/// changed.
pub open spec fn tag_delete_effect(pre: Store, post: Store, id: u64) -> bool {
    &&& post.version == pre.version
    &&& post.schema == pre.schema
    &&& post.pdfs@ == pre.pdfs@
    &&& post.highlights@ == pre.highlights@
    &&& post.next_document_id == pre.next_document_id
    &&& post.next_highlight_row_id == pre.next_highlight_row_id
    &&& post.next_tag_id == pre.next_tag_id
    &&& post.tags@ == pre.tags@.filter(tag_id_not(id))
    &&& post.highlight_tags@ == pre.highlight_tags@.filter(assoc_tag_not(id))
}

/// Deleting the highlights with stable identifier `key` from `pre` yields
/// `post`: those rows and their associations are gone, and nothing else
/// changed.
pub open spec fn highlight_delete_effect(pre: Store, post: Store, key: Seq<char>) -> bool {
    &&& post.version == pre.version
    &&& post.schema == pre.schema
    &&& post.pdfs@ == pre.pdfs@
    &&& post.tags@ == pre.tags@
    &&& post.next_document_id == pre.next_document_id
    &&& post.next_highlight_row_id == pre.next_highlight_row_id
    &&& post.next_tag_id == pre.next_tag_id
    &&& post.highlights@ == pre.highlights@.filter(highlight_key_not(key))
    &&& post.highlight_tags@ == pre.highlight_tags@.filter(assoc_key_not(key))
}

/// The watermark, the schema, and every table and counter other than the
/// document table are the same in `pre` and `post`.
pub open spec fn same_except_documents(pre: Store, post: Store) -> bool {
    &&& post.version == pre.version
    &&& post.schema == pre.schema
    &&& post.highlights@ == pre.highlights@
    &&& post.tags@ == pre.tags@
    &&& post.highlight_tags@ == pre.highlight_tags@
    &&& post.next_highlight_row_id == pre.next_highlight_row_id
    &&& post.next_tag_id == pre.next_tag_id
}

/// The watermark, the schema, and every table and counter other than the
/// highlight table are the same in `pre` and `post`.
pub open spec fn same_except_highlights(pre: Store, post: Store) -> bool {
    &&& post.version == pre.version
    &&& post.schema == pre.schema
    &&& post.pdfs@ == pre.pdfs@
    &&& post.tags@ == pre.tags@
    &&& post.highlight_tags@ == pre.highlight_tags@
    &&& post.next_document_id == pre.next_document_id
    &&& post.next_tag_id == pre.next_tag_id
}

/// The watermark, the schema, and every table and counter other than the tag
/// table are the same in `pre` and `post`.
pub open spec fn same_except_tags(pre: Store, post: Store) -> bool {
    &&& post.version == pre.version
    &&& post.schema == pre.schema
    &&& post.pdfs@ == pre.pdfs@
    &&& post.highlights@ == pre.highlights@
    &&& post.highlight_tags@ == pre.highlight_tags@
    &&& post.next_document_id == pre.next_document_id
    &&& post.next_highlight_row_id == pre.next_highlight_row_id
}

/// The watermark, the schema, and every table and counter other than the
/// association table are the same in `pre` and `post`.
pub open spec fn same_except_associations(pre: Store, post: Store) -> bool {
    &&& post.version == pre.version
    &&& post.schema == pre.schema
    &&& post.pdfs@ == pre.pdfs@
    &&& post.highlights@ == pre.highlights@
    &&& post.tags@ == pre.tags@
    &&& post.next_document_id == pre.next_document_id
    &&& post.next_highlight_row_id == pre.next_highlight_row_id
    &&& post.next_tag_id == pre.next_tag_id
}

/// The persistent store: its watermark, its schema, and its table contents.
///
/// The embedded engine holds this state durably; the model carries it as
/// plain data.  The auto-increment counters stand for the engine's rowid
/// allocation: identifiers grow monotonically and are never reused.
pub struct Store {
    /// The applied-version watermark: the highest migration version already
    /// applied, or 0 for a store that was never initialized.
    pub version: u32,
    /// The structural state; always `schema_at(version)`.
    pub schema: Schema,
    /// The document table.
    pub pdfs: Vec<DocumentRow>,
    /// The highlight table.
    pub highlights: Vec<HighlightRow>,
    /// The tag table.
    pub tags: Vec<TagRow>,
    /// The association table.
    pub highlight_tags: Vec<HighlightTagRow>,
    /// The next primary key the document table will assign.
    pub next_document_id: u64,
    /// The next primary key the highlight table will assign.
    pub next_highlight_row_id: u64,
    /// The next primary key the tag table will assign.
    pub next_tag_id: u64,
}

impl Store {
    /// Some document row carries primary key `id`.
    pub open spec fn has_document(self, id: u64) -> bool {
        exists|i: int| 0 <= i < self.pdfs@.len() && self.pdfs@[i].id == id
    }

    /// Some highlight row carries the stable identifier `key`.
    pub open spec fn has_highlight_key(self, key: Seq<char>) -> bool {
        seq_has_highlight_key(self.highlights@, key)
    }

    /// Some tag row carries primary key `id`.
    pub open spec fn has_tag_id(self, id: u64) -> bool {
        exists|i: int| 0 <= i < self.tags@.len() && self.tags@[i].id == id
    }

    /// Some tag row carries the name `name`.
    pub open spec fn has_tag_name(self, name: Seq<char>) -> bool {
        exists|i: int| 0 <= i < self.tags@.len() && self.tags@[i].name@ == name
    }

    /// The association table holds the pair (`key`, `tag_id`).
    pub open spec fn has_association(self, key: Seq<char>, tag_id: u64) -> bool {
        exists|i: int|
            0 <= i < self.highlight_tags@.len() && self.highlight_tags@[i].highlight_id@ == key
                && self.highlight_tags@[i].tag_id == tag_id
    }

    /// Well-formedness: the invariants the schema promises of the data.
    ///
    /// A table that does not exist yet holds no rows; primary keys are unique
    /// and below their counter; tag names are unique; every highlight
    /// resolves to its document; every association resolves to a highlight
    /// and a tag and no pair repeats; and once the rebuild step has run, the
    /// stable highlight identifiers are unique.
    pub open spec fn wf(self) -> bool {
        &&& self.version <= LATEST_VERSION
        &&& self.schema == schema_at(self.version)
        &&& !self.schema.has_pdfs ==> self.pdfs@.len() == 0
        &&& !self.schema.has_highlights ==> self.highlights@.len() == 0
        &&& !self.schema.has_tags ==> self.tags@.len() == 0
        &&& !self.schema.has_highlight_tags ==> self.highlight_tags@.len() == 0
        &&& forall|i: int, j: int|
            0 <= i < j < self.pdfs@.len() ==> self.pdfs@[i].id != self.pdfs@[j].id
        &&& forall|i: int| 0 <= i < self.pdfs@.len() ==> self.pdfs@[i].id < self.next_document_id
        &&& forall|i: int, j: int|
            0 <= i < j < self.highlights@.len() ==> self.highlights@[i].id
                != self.highlights@[j].id
        &&& forall|i: int|
            0 <= i < self.highlights@.len() ==> self.highlights@[i].id
                < self.next_highlight_row_id
        &&& forall|i: int, j: int|
            0 <= i < j < self.tags@.len() ==> self.tags@[i].id != self.tags@[j].id
        &&& forall|i: int, j: int|
            0 <= i < j < self.tags@.len() ==> self.tags@[i].name@ != self.tags@[j].name@
        &&& forall|i: int| 0 <= i < self.tags@.len() ==> self.tags@[i].id < self.next_tag_id
        &&& forall|i: int|
            0 <= i < self.highlights@.len() ==> self.has_document(
                #[trigger] self.highlights@[i].pdf_id,
            )
        &&& forall|i: int|
            0 <= i < self.highlight_tags@.len() ==> self.has_highlight_key(
                #[trigger] self.highlight_tags@[i].highlight_id@,
            )
        &&& forall|i: int|
            0 <= i < self.highlight_tags@.len() ==> self.has_tag_id(
                #[trigger] self.highlight_tags@[i].tag_id,
            )
        &&& forall|i: int, j: int|
            0 <= i < j < self.highlight_tags@.len() ==> !(self.highlight_tags@[i].highlight_id@
                == self.highlight_tags@[j].highlight_id@ && self.highlight_tags@[i].tag_id
                == self.highlight_tags@[j].tag_id)
        &&& self.schema.highlight_id_unique ==> highlight_keys_distinct(self.highlights@)
    }

    /// A store that was never initialized: watermark 0, no tables, no rows.
    pub fn new() -> (s: Store)
        ensures
            s.wf(),
            s.version == 0,
            s.pdfs@.len() == 0,
            s.highlights@.len() == 0,
            s.tags@.len() == 0,
            s.highlight_tags@.len() == 0,
            s.next_document_id == 1,
            s.next_highlight_row_id == 1,
            s.next_tag_id == 1,
    {
        Store {
            version: 0,
            schema: Schema {
                has_pdfs: false,
                has_highlights: false,
                has_tags: false,
                has_highlight_tags: false,
                highlight_id_unique: false,
            },
            pdfs: Vec::new(),
            highlights: Vec::new(),
            tags: Vec::new(),
            highlight_tags: Vec::new(),
            next_document_id: 1,
            next_highlight_row_id: 1,
            next_tag_id: 1,
        }
    }

    /// Adds a document for a newly opened PDF and returns its primary key.
    /// Both timestamps start at the caller's clock value `now`.  Fails only
    /// when the key counter is spent.
    pub fn insert_document(&mut self, name: String, path: String, now: u64) -> (r: Result<
        u64,
        StoreError,
    >)
        requires
            old(self).wf(),
            old(self).schema.has_pdfs,
        ensures
            final(self).wf(),
            old(self).next_document_id == u64::MAX ==> r == Err::<u64, StoreError>(
                StoreError::CapacityExhausted,
            ) && *final(self) == *old(self),
            old(self).next_document_id < u64::MAX ==> {
                &&& r == Ok::<u64, StoreError>(old(self).next_document_id)
                &&& final(self).pdfs@ == old(self).pdfs@.push(
                    (DocumentRow {
                        id: old(self).next_document_id,
                        name,
                        path,
                        date_added: now,
                        last_opened: now,
                    }),
                )
                &&& final(self).next_document_id == old(self).next_document_id + 1
                &&& same_except_documents(*old(self), *final(self))
            },
    {
        if self.next_document_id == u64::MAX {
            return Err(StoreError::CapacityExhausted);
        }
        let id = self.next_document_id;
        let row = DocumentRow { id, name, path, date_added: now, last_opened: now };
        self.pdfs.push(row);
        self.next_document_id = id + 1;
        proof {
            assert forall|i: int|
                0 <= i < self.highlights@.len() implies self.has_document(
                #[trigger] self.highlights@[i].pdf_id,
            ) by {
                let k = choose|k: int|
                    0 <= k < old(self).pdfs@.len() && old(self).pdfs@[k].id
                        == self.highlights@[i].pdf_id;
                assert(self.pdfs@[k].id == self.highlights@[i].pdf_id);
            }
        }
        Ok(id)
    }

    /// Adds a highlight to an existing document and returns its primary key.
    /// Fails when the owning document is missing, when the schema enforces
    /// uniqueness and the stable identifier is already taken, or when the key
    /// counter is spent.  Before the rebuild step has run, a repeated stable
    /// identifier is accepted: nothing enforces it yet.
    pub fn insert_highlight(
        &mut self,
        pdf_id: u64,
        highlight_id: String,
        content_text: Option<String>,
        content_image: Option<String>,
        position_data: String,
        page_number: u32,
        now: u64,
    ) -> (r: Result<u64, StoreError>)
        requires
            old(self).wf(),
            old(self).schema.has_highlights,
        ensures
            final(self).wf(),
            !old(self).has_document(pdf_id) ==> r == Err::<u64, StoreError>(
                StoreError::UnknownDocument,
            ) && *final(self) == *old(self),
            old(self).has_document(pdf_id) && old(self).schema.highlight_id_unique && old(
                self,
            ).has_highlight_key(highlight_id@) ==> r == Err::<u64, StoreError>(
                StoreError::DuplicateHighlightId,
            ) && *final(self) == *old(self),
            old(self).has_document(pdf_id) && !(old(self).schema.highlight_id_unique && old(
                self,
            ).has_highlight_key(highlight_id@)) && old(self).next_highlight_row_id == u64::MAX
                ==> r == Err::<u64, StoreError>(StoreError::CapacityExhausted) && *final(self) == *old(self),
            old(self).has_document(pdf_id) && !(old(self).schema.highlight_id_unique && old(
                self,
            ).has_highlight_key(highlight_id@)) && old(self).next_highlight_row_id < u64::MAX
                ==> {
                &&& r == Ok::<u64, StoreError>(old(self).next_highlight_row_id)
                &&& final(self).highlights@ == old(self).highlights@.push(
                    (HighlightRow {
                        id: old(self).next_highlight_row_id,
                        pdf_id,
                        highlight_id,
                        content_text,
                        content_image,
                        comment_text: None,
                        comment_emoji: None,
                        position_data,
                        page_number,
                        created_at: now,
                    }),
                )
                &&& final(self).next_highlight_row_id == old(self).next_highlight_row_id + 1
                &&& same_except_highlights(*old(self), *final(self))
            },
    {
        if !self.contains_document(pdf_id) {
            return Err(StoreError::UnknownDocument);
        }
        if self.schema.highlight_id_unique && self.contains_highlight(&highlight_id) {
            return Err(StoreError::DuplicateHighlightId);
        }
        if self.next_highlight_row_id == u64::MAX {
            return Err(StoreError::CapacityExhausted);
        }
        let id = self.next_highlight_row_id;
        let row = HighlightRow {
            id,
            pdf_id,
            highlight_id,
            content_text,
            content_image,
            comment_text: None,
            comment_emoji: None,
            position_data,
            page_number,
            created_at: now,
        };
        self.highlights.push(row);
        self.next_highlight_row_id = id + 1;
        proof {
            assert forall|i: int|
                0 <= i < self.highlights@.len() implies self.has_document(
                #[trigger] self.highlights@[i].pdf_id,
            ) by {
                assert(self.pdfs@ == old(self).pdfs@);
                if i < old(self).highlights@.len() {
                    assert(self.highlights@[i] == old(self).highlights@[i]);
                    assert(old(self).has_document(old(self).highlights@[i].pdf_id));
                    let k = choose|k: int|
                        0 <= k < old(self).pdfs@.len() && old(self).pdfs@[k].id == old(
                            self,
                        ).highlights@[i].pdf_id;
                    assert(self.pdfs@[k].id == self.highlights@[i].pdf_id);
                } else {
                    assert(self.highlights@[i].pdf_id == pdf_id);
                    let k = choose|k: int|
                        0 <= k < old(self).pdfs@.len() && old(self).pdfs@[k].id == pdf_id;
                    assert(self.pdfs@[k].id == pdf_id);
                }
            }
            assert forall|i: int|
                0 <= i < self.highlight_tags@.len() implies self.has_highlight_key(
                #[trigger] self.highlight_tags@[i].highlight_id@,
            ) by {
                let k = choose|k: int|
                    0 <= k < old(self).highlights@.len() && old(self).highlights@[k].highlight_id@
                        == self.highlight_tags@[i].highlight_id@;
                assert(self.highlights@[k].highlight_id@
                    == self.highlight_tags@[i].highlight_id@);
            }
        }
        Ok(id)
    }

    /// Adds a tag and returns its primary key.  Fails when the name is
    /// already taken — tag names are unique from the moment the tag table
    /// exists — or when the key counter is spent.
    pub fn insert_tag(&mut self, name: String, now: u64) -> (r: Result<u64, StoreError>)
        requires
            old(self).wf(),
            old(self).schema.has_tags,
        ensures
            final(self).wf(),
            old(self).has_tag_name(name@) ==> r == Err::<u64, StoreError>(
                StoreError::DuplicateTagName,
            ) && *final(self) == *old(self),
            !old(self).has_tag_name(name@) && old(self).next_tag_id == u64::MAX ==> r == Err::<
                u64,
                StoreError,
            >(StoreError::CapacityExhausted) && *final(self) == *old(self),
            !old(self).has_tag_name(name@) && old(self).next_tag_id < u64::MAX ==> {
                &&& r == Ok::<u64, StoreError>(old(self).next_tag_id)
                &&& final(self).tags@ == old(self).tags@.push(
                    (TagRow { id: old(self).next_tag_id, name, created_at: now }),
                )
                &&& final(self).next_tag_id == old(self).next_tag_id + 1
                &&& same_except_tags(*old(self), *final(self))
            },
    {
        if self.contains_tag_name(&name) {
            return Err(StoreError::DuplicateTagName);
        }
        if self.next_tag_id == u64::MAX {
            return Err(StoreError::CapacityExhausted);
        }
        let id = self.next_tag_id;
        let row = TagRow { id, name, created_at: now };
        self.tags.push(row);
        self.next_tag_id = id + 1;
        proof {
            assert forall|i: int, j: int|
                0 <= i < j < self.tags@.len() implies self.tags@[i].id != self.tags@[j].id by {
                assert(self.tags@[i] == old(self).tags@[i]);
                if j < old(self).tags@.len() {
                    assert(self.tags@[j] == old(self).tags@[j]);
                } else {
                    assert(self.tags@[j].id == old(self).next_tag_id);
                }
            }
            assert forall|i: int, j: int|
                0 <= i < j < self.tags@.len() implies self.tags@[i].name@
                != self.tags@[j].name@ by {
                assert(self.tags@[i] == old(self).tags@[i]);
                if j < old(self).tags@.len() {
                    assert(self.tags@[j] == old(self).tags@[j]);
                } else {
                    assert(self.tags@[j].name@ == name@);
                    if old(self).tags@[i].name@ == name@ {
                        assert(old(self).has_tag_name(name@));
                        assert(false);
                    }
                }
            }
            assert forall|i: int|
                0 <= i < self.tags@.len() implies self.tags@[i].id < self.next_tag_id by {
                if i < old(self).tags@.len() {
                    assert(self.tags@[i] == old(self).tags@[i]);
                }
            }
            assert forall|i: int|
                0 <= i < self.highlights@.len() implies self.has_document(
                #[trigger] self.highlights@[i].pdf_id,
            ) by {
                assert(self.pdfs@ == old(self).pdfs@);
                assert(self.highlights@ == old(self).highlights@);
                assert(old(self).has_document(old(self).highlights@[i].pdf_id));
                let k = choose|k: int|
                    0 <= k < old(self).pdfs@.len() && old(self).pdfs@[k].id == old(
                        self,
                    ).highlights@[i].pdf_id;
                assert(self.pdfs@[k].id == self.highlights@[i].pdf_id);
            }
            assert forall|i: int|
                0 <= i < self.highlight_tags@.len() implies self.has_highlight_key(
                #[trigger] self.highlight_tags@[i].highlight_id@,
            ) by {
                assert(self.highlight_tags@ == old(self).highlight_tags@);
                assert(old(self).has_highlight_key(old(self).highlight_tags@[i].highlight_id@));
                let k = choose|k: int|
                    0 <= k < old(self).highlights@.len() && old(self).highlights@[k].highlight_id@
                        == old(self).highlight_tags@[i].highlight_id@;
                assert(self.highlights@[k].highlight_id@
                    == self.highlight_tags@[i].highlight_id@);
            }
            assert forall|i: int|
                0 <= i < self.highlight_tags@.len() implies self.has_tag_id(
                #[trigger] self.highlight_tags@[i].tag_id,
            ) by {
                let k = choose|k: int|
                    0 <= k < old(self).tags@.len() && old(self).tags@[k].id
                        == self.highlight_tags@[i].tag_id;
                assert(self.tags@[k].id == self.highlight_tags@[i].tag_id);
            }
        }
        Ok(id)
    }

    /// Attaches an existing tag to an existing highlight.  Fails when either
    /// side is missing or when the pair is already present.
    pub fn insert_highlight_tag(&mut self, highlight_id: String, tag_id: u64) -> (r: Result<
        (),
        StoreError,
    >)
        requires
            old(self).wf(),
            old(self).schema.has_highlight_tags,
        ensures
            final(self).wf(),
            !old(self).has_highlight_key(highlight_id@) ==> r == Err::<(), StoreError>(
                StoreError::UnknownHighlight,
            ) && *final(self) == *old(self),
            old(self).has_highlight_key(highlight_id@) && !old(self).has_tag_id(tag_id) ==> r
                == Err::<(), StoreError>(StoreError::UnknownTag) && *final(self) == *old(self),
            old(self).has_highlight_key(highlight_id@) && old(self).has_tag_id(tag_id) && old(
                self,
            ).has_association(highlight_id@, tag_id) ==> r == Err::<(), StoreError>(
                StoreError::DuplicateAssociation,
            ) && *final(self) == *old(self),
            old(self).has_highlight_key(highlight_id@) && old(self).has_tag_id(tag_id) && !old(
                self,
            ).has_association(highlight_id@, tag_id) ==> {
                &&& r == Ok::<(), StoreError>(())
                &&& final(self).highlight_tags@ == old(self).highlight_tags@.push(
                    (HighlightTagRow { highlight_id, tag_id }),
                )
                &&& same_except_associations(*old(self), *final(self))
            },
    {
        if !self.contains_highlight(&highlight_id) {
            return Err(StoreError::UnknownHighlight);
        }
        if !self.contains_tag(tag_id) {
            return Err(StoreError::UnknownTag);
        }
        if self.contains_association(&highlight_id, tag_id) {
            return Err(StoreError::DuplicateAssociation);
        }
        let row = HighlightTagRow { highlight_id, tag_id };
        self.highlight_tags.push(row);
        proof {
            assert forall|i: int|
                0 <= i < self.highlight_tags@.len() implies self.has_highlight_key(
                #[trigger] self.highlight_tags@[i].highlight_id@,
            ) && self.has_tag_id(self.highlight_tags@[i].tag_id) by {
                assert(self.highlights@ == old(self).highlights@);
                assert(self.tags@ == old(self).tags@);
                if i < old(self).highlight_tags@.len() {
                    assert(self.highlight_tags@[i] == old(self).highlight_tags@[i]);
                    assert(old(self).has_highlight_key(
                        old(self).highlight_tags@[i].highlight_id@,
                    ));
                    let k = choose|k: int|
                        0 <= k < old(self).highlights@.len()
                            && old(self).highlights@[k].highlight_id@ == old(
                            self,
                        ).highlight_tags@[i].highlight_id@;
                    assert(self.highlights@[k].highlight_id@
                        == self.highlight_tags@[i].highlight_id@);
                    assert(old(self).has_tag_id(old(self).highlight_tags@[i].tag_id));
                    let t = choose|t: int|
                        0 <= t < old(self).tags@.len() && old(self).tags@[t].id == old(
                            self,
                        ).highlight_tags@[i].tag_id;
                    assert(self.tags@[t].id == self.highlight_tags@[i].tag_id);
                } else {
                    assert(self.highlight_tags@[i].highlight_id@ == highlight_id@);
                    assert(self.highlight_tags@[i].tag_id == tag_id);
                    let k = choose|k: int|
                        0 <= k < old(self).highlights@.len()
                            && old(self).highlights@[k].highlight_id@ == highlight_id@;
                    assert(self.highlights@[k].highlight_id@ == highlight_id@);
                    let t = choose|t: int|
                        0 <= t < old(self).tags@.len() && old(self).tags@[t].id == tag_id;
                    assert(self.tags@[t].id == tag_id);
                }
            }
            assert forall|i: int, j: int|
                0 <= i < j < self.highlight_tags@.len() implies !(self.highlight_tags@[i].highlight_id@
                == self.highlight_tags@[j].highlight_id@ && self.highlight_tags@[i].tag_id
                == self.highlight_tags@[j].tag_id) by {
                assert(self.highlight_tags@[i] == old(self).highlight_tags@[i]);
                if j < old(self).highlight_tags@.len() {
                    assert(self.highlight_tags@[j] == old(self).highlight_tags@[j]);
                } else {
                    assert(self.highlight_tags@[j].highlight_id@ == highlight_id@);
                    assert(self.highlight_tags@[j].tag_id == tag_id);
                    if old(self).highlight_tags@[i].highlight_id@ == highlight_id@ && old(
                        self,
                    ).highlight_tags@[i].tag_id == tag_id {
                        assert(old(self).has_association(highlight_id@, tag_id));
                        assert(false);
                    }
                }
            }
            lemma_row_table_invariants_transfer(*old(self), *self);
        }
        Ok(())
    }

    /// Records that the document with primary key `id` was opened now:
    /// its last-opened timestamp becomes `now` and nothing else changes.
    pub fn touch_document(&mut self, id: u64, now: u64) -> (r: Result<(), StoreError>)
        requires
            old(self).wf(),
        ensures
            final(self).wf(),
            !old(self).has_document(id) ==> r == Err::<(), StoreError>(StoreError::UnknownDocument)
                && *final(self) == *old(self),
            old(self).has_document(id) ==> {
                &&& r == Ok::<(), StoreError>(())
                &&& final(self).pdfs@.len() == old(self).pdfs@.len()
                &&& forall|k: int|
                    0 <= k < old(self).pdfs@.len() ==> final(self).pdfs@[k] == (if old(
                        self,
                    ).pdfs@[k].id == id {
                        (DocumentRow { last_opened: now, ..old(self).pdfs@[k] })
                    } else {
                        old(self).pdfs@[k]
                    })
                &&& final(self).next_document_id == old(self).next_document_id
                &&& same_except_documents(*old(self), *final(self))
            },
    {
        let n = self.pdfs.len();
        let mut i: usize = 0;
        while i < n
            invariant
                old(self).wf(),
                i <= n,
                n == self.pdfs@.len(),
                *self == *old(self),
                forall|k: int| 0 <= k < i ==> self.pdfs@[k].id != id,
            decreases n - i,
        {
            if self.pdfs[i].id == id {
                let row = self.pdfs.remove(i);
                let updated = DocumentRow { last_opened: now, ..row };
                self.pdfs.insert(i, updated);
                proof {
                    crate::filtering::lemma_remove_insert_is_update(
                        old(self).pdfs@,
                        i as int,
                        updated,
                    );
                    assert(self.pdfs@ == old(self).pdfs@.update(i as int, updated));
                    assert(forall|k: int|
                        0 <= k < self.pdfs@.len() ==> self.pdfs@[k].id == old(
                            self,
                        ).pdfs@[k].id);
                    assert forall|k: int|
                        0 <= k < self.highlights@.len() implies self.has_document(
                        #[trigger] self.highlights@[k].pdf_id,
                    ) by {
                        assert(old(self).has_document(old(self).highlights@[k].pdf_id));
                        let m = choose|m: int|
                            0 <= m < old(self).pdfs@.len() && old(self).pdfs@[m].id == old(
                                self,
                            ).highlights@[k].pdf_id;
                        assert(self.pdfs@[m].id == self.highlights@[k].pdf_id);
                    }
                    assert(old(self).has_document(id));
                }
                return Ok(());
            }
            i += 1;
        }
        Err(StoreError::UnknownDocument)
    }

    /// Replaces the comment text and emoji of the highlight with stable
    /// identifier `key`.  The comment fields are the only fields of a
    /// highlight that may change after creation; this operation is offered
    /// once the rebuild step has made the identifier unique, so it touches
    /// exactly one row.
    pub fn update_highlight_comment(
        &mut self,
        key: &String,
        comment_text: Option<String>,
        comment_emoji: Option<String>,
    ) -> (r: Result<(), StoreError>)
        requires
            old(self).wf(),
            old(self).schema.highlight_id_unique,
        ensures
            final(self).wf(),
            !old(self).has_highlight_key(key@) ==> r == Err::<(), StoreError>(
                StoreError::UnknownHighlight,
            ) && *final(self) == *old(self),
            old(self).has_highlight_key(key@) ==> {
                &&& r == Ok::<(), StoreError>(())
                &&& final(self).highlights@.len() == old(self).highlights@.len()
                &&& forall|k: int|
                    0 <= k < old(self).highlights@.len() ==> final(self).highlights@[k] == (if old(
                        self,
                    ).highlights@[k].highlight_id@ == key@ {
                        (HighlightRow { comment_text, comment_emoji, ..old(self).highlights@[k] })
                    } else {
                        old(self).highlights@[k]
                    })
                &&& final(self).next_highlight_row_id == old(self).next_highlight_row_id
                &&& same_except_highlights(*old(self), *final(self))
            },
    {
        let n = self.highlights.len();
        let mut i: usize = 0;
        while i < n
            invariant
                old(self).wf(),
                old(self).schema.highlight_id_unique,
                i <= n,
                n == self.highlights@.len(),
                *self == *old(self),
                forall|k: int| 0 <= k < i ==> self.highlights@[k].highlight_id@ != key@,
            decreases n - i,
        {
            if self.highlights[i].highlight_id == *key {
                let row = self.highlights.remove(i);
                let updated = HighlightRow { comment_text, comment_emoji, ..row };
                self.highlights.insert(i, updated);
                proof {
                    crate::filtering::lemma_remove_insert_is_update(
                        old(self).highlights@,
                        i as int,
                        updated,
                    );
                    assert(self.highlights@ == old(self).highlights@.update(i as int, updated));
                    assert(forall|k: int|
                        0 <= k < self.highlights@.len() ==> self.highlights@[k].id == old(
                            self,
                        ).highlights@[k].id && self.highlights@[k].highlight_id@ == old(
                            self,
                        ).highlights@[k].highlight_id@ && self.highlights@[k].pdf_id == old(
                            self,
                        ).highlights@[k].pdf_id);
                    assert forall|k: int|
                        0 <= k < self.highlights@.len() implies self.has_document(
                        #[trigger] self.highlights@[k].pdf_id,
                    ) by {
                        assert(old(self).has_document(old(self).highlights@[k].pdf_id));
                        let m = choose|m: int|
                            0 <= m < old(self).pdfs@.len() && old(self).pdfs@[m].id == old(
                                self,
                            ).highlights@[k].pdf_id;
                        assert(self.pdfs@[m].id == self.highlights@[k].pdf_id);
                    }
                    assert forall|k: int|
                        0 <= k < self.highlight_tags@.len() implies self.has_highlight_key(
                        #[trigger] self.highlight_tags@[k].highlight_id@,
                    ) by {
                        assert(old(self).has_highlight_key(
                            old(self).highlight_tags@[k].highlight_id@,
                        ));
                        let m = choose|m: int|
                            0 <= m < old(self).highlights@.len() && old(
                                self,
                            ).highlights@[m].highlight_id@ == old(
                                self,
                            ).highlight_tags@[k].highlight_id@;
                        assert(self.highlights@[m].highlight_id@
                            == self.highlight_tags@[k].highlight_id@);
                    }
                    assert(old(self).has_highlight_key(key@));
                }
                return Ok(());
            }
            i += 1;
        }
        Err(StoreError::UnknownHighlight)
    }

    /// Deletes the document with primary key `id`, cascading to its
    /// highlights and to the associations of the removed highlights.  An
    /// association survives exactly while some highlight still carries its
    /// stable identifier.  Returns whether a document row was removed; with
    /// no matching row the store is untouched.
    pub fn delete_document(&mut self, id: u64) -> (r: bool)
        requires
            old(self).wf(),
        ensures
            final(self).wf(),
            r == old(self).has_document(id),
            document_delete_effect(*old(self), *final(self), id),
    {
        let mut taken_pdfs: Vec<DocumentRow> = Vec::new();
        core::mem::swap(&mut self.pdfs, &mut taken_pdfs);
        let (kept_pdfs, found) = keep_pdfs_not_id(taken_pdfs, id);
        self.pdfs = kept_pdfs;
        let mut taken_highlights: Vec<HighlightRow> = Vec::new();
        core::mem::swap(&mut self.highlights, &mut taken_highlights);
        let (kept_highlights, _) = keep_highlights_not_pdf(taken_highlights, id);
        self.highlights = kept_highlights;
        let mut taken_assocs: Vec<HighlightTagRow> = Vec::new();
        core::mem::swap(&mut self.highlight_tags, &mut taken_assocs);
        let kept_assocs = keep_assocs_with_live_key(taken_assocs, &self.highlights);
        self.highlight_tags = kept_assocs;
        proof {
            let pre = *old(self);
            let dpred = doc_id_not(id);
            let hpred = highlight_owner_not(id);
            let apred = assoc_key_live(self.highlights@);
            assert(self.pdfs@ == pre.pdfs@.filter(dpred));
            assert(self.highlights@ == pre.highlights@.filter(hpred));
            assert(self.highlight_tags@ == pre.highlight_tags@.filter(apred));
            pre.pdfs@.lemma_filter_len(dpred);
            pre.highlights@.lemma_filter_len(hpred);
            pre.highlight_tags@.lemma_filter_len(apred);
            crate::filtering::lemma_filter_members(pre.pdfs@, dpred);
            crate::filtering::lemma_filter_members(pre.highlights@, hpred);
            crate::filtering::lemma_filter_members(pre.highlight_tags@, apred);
            crate::filtering::lemma_filter_distinct_keys(pre.pdfs@, dpred, |d: DocumentRow| d.id);
            crate::filtering::lemma_filter_distinct_keys(
                pre.highlights@,
                hpred,
                |h: HighlightRow| h.id,
            );
            crate::filtering::lemma_filter_distinct_keys(
                pre.highlight_tags@,
                apred,
                |a: HighlightTagRow| (a.highlight_id@, a.tag_id),
            );
            assert forall|i: int, j: int|
                0 <= i < j < self.pdfs@.len() implies self.pdfs@[i].id != self.pdfs@[j].id by {
                assert(self.pdfs@[i] == pre.pdfs@.filter(dpred)[i]);
                assert(self.pdfs@[j] == pre.pdfs@.filter(dpred)[j]);
            }
            assert forall|i: int|
                0 <= i < self.pdfs@.len() implies self.pdfs@[i].id < self.next_document_id by {
                assert(pre.pdfs@.contains(self.pdfs@[i]));
                let k = choose|k: int| 0 <= k < pre.pdfs@.len() && pre.pdfs@[k] == self.pdfs@[i];
                assert(pre.pdfs@[k].id < pre.next_document_id);
            }
            assert forall|i: int, j: int|
                0 <= i < j < self.highlights@.len() implies self.highlights@[i].id
                != self.highlights@[j].id by {
                assert(self.highlights@[i] == pre.highlights@.filter(hpred)[i]);
                assert(self.highlights@[j] == pre.highlights@.filter(hpred)[j]);
            }
            assert forall|i: int|
                0 <= i < self.highlights@.len() implies self.highlights@[i].id
                < self.next_highlight_row_id by {
                assert(pre.highlights@.contains(self.highlights@[i]));
                let k = choose|k: int|
                    0 <= k < pre.highlights@.len() && pre.highlights@[k] == self.highlights@[i];
                assert(pre.highlights@[k].id < pre.next_highlight_row_id);
            }
            assert forall|i: int|
                0 <= i < self.highlights@.len() implies self.has_document(
                #[trigger] self.highlights@[i].pdf_id,
            ) by {
                pre.highlights@.lemma_filter_pred(hpred, i);
                assert(self.highlights@[i].pdf_id != id);
                assert(pre.highlights@.contains(self.highlights@[i]));
                let k = choose|k: int|
                    0 <= k < pre.highlights@.len() && pre.highlights@[k] == self.highlights@[i];
                assert(pre.has_document(pre.highlights@[k].pdf_id));
                let m = choose|m: int|
                    0 <= m < pre.pdfs@.len() && pre.pdfs@[m].id == pre.highlights@[k].pdf_id;
                assert(pre.pdfs@[m].id != id);
                pre.pdfs@.lemma_filter_contains(dpred, m);
                assert(self.pdfs@.contains(pre.pdfs@[m]));
                let n = choose|n: int|
                    0 <= n < self.pdfs@.len() && self.pdfs@[n] == pre.pdfs@[m];
                assert(self.pdfs@[n].id == self.highlights@[i].pdf_id);
            }
            assert forall|i: int|
                0 <= i < self.highlight_tags@.len() implies self.has_highlight_key(
                #[trigger] self.highlight_tags@[i].highlight_id@,
            ) by {
                pre.highlight_tags@.lemma_filter_pred(apred, i);
            }
            assert forall|i: int|
                0 <= i < self.highlight_tags@.len() implies self.has_tag_id(
                #[trigger] self.highlight_tags@[i].tag_id,
            ) by {
                assert(pre.highlight_tags@.contains(self.highlight_tags@[i]));
                let k = choose|k: int|
                    0 <= k < pre.highlight_tags@.len() && pre.highlight_tags@[k]
                        == self.highlight_tags@[i];
                assert(pre.has_tag_id(pre.highlight_tags@[k].tag_id));
                let t = choose|t: int|
                    0 <= t < pre.tags@.len() && pre.tags@[t].id == pre.highlight_tags@[k].tag_id;
                assert(self.tags@[t].id == self.highlight_tags@[i].tag_id);
            }
            assert forall|i: int, j: int|
                0 <= i < j < self.highlight_tags@.len() implies !(self.highlight_tags@[i].highlight_id@
                == self.highlight_tags@[j].highlight_id@ && self.highlight_tags@[i].tag_id
                == self.highlight_tags@[j].tag_id) by {
                assert(self.highlight_tags@[i] == pre.highlight_tags@.filter(apred)[i]);
                assert(self.highlight_tags@[j] == pre.highlight_tags@.filter(apred)[j]);
            }
            if self.schema.highlight_id_unique {
                crate::filtering::lemma_filter_distinct_keys(
                    pre.highlights@,
                    hpred,
                    |h: HighlightRow| h.highlight_id@,
                );
                assert forall|i: int, j: int|
                    0 <= i < j < self.highlights@.len() implies self.highlights@[i].highlight_id@
                    != self.highlights@[j].highlight_id@ by {
                    assert(self.highlights@[i] == pre.highlights@.filter(hpred)[i]);
                    assert(self.highlights@[j] == pre.highlights@.filter(hpred)[j]);
                }
            }
        }
        found
    }

    /// Deletes the tag with primary key `id`, cascading to its association
    /// rows and leaving every highlight intact.  Returns whether a tag row
    /// was removed; with no matching row the store is untouched.
    pub fn delete_tag(&mut self, id: u64) -> (r: bool)
        requires
            old(self).wf(),
        ensures
            final(self).wf(),
            r == old(self).has_tag_id(id),
            tag_delete_effect(*old(self), *final(self), id),
    {
        let mut taken_tags: Vec<TagRow> = Vec::new();
        core::mem::swap(&mut self.tags, &mut taken_tags);
        let (kept_tags, found) = keep_tags_not_id(taken_tags, id);
        self.tags = kept_tags;
        let mut taken_assocs: Vec<HighlightTagRow> = Vec::new();
        core::mem::swap(&mut self.highlight_tags, &mut taken_assocs);
        let kept_assocs = keep_assocs_not_tag(taken_assocs, id);
        self.highlight_tags = kept_assocs;
        proof {
            let pre = *old(self);
            let tpred = tag_id_not(id);
            let apred = assoc_tag_not(id);
            assert(self.tags@ == pre.tags@.filter(tpred));
            assert(self.highlight_tags@ == pre.highlight_tags@.filter(apred));
            pre.tags@.lemma_filter_len(tpred);
            pre.highlight_tags@.lemma_filter_len(apred);
            crate::filtering::lemma_filter_members(pre.tags@, tpred);
            crate::filtering::lemma_filter_members(pre.highlight_tags@, apred);
            crate::filtering::lemma_filter_distinct_keys(pre.tags@, tpred, |t: TagRow| t.id);
            crate::filtering::lemma_filter_distinct_keys(pre.tags@, tpred, |t: TagRow| t.name@);
            crate::filtering::lemma_filter_distinct_keys(
                pre.highlight_tags@,
                apred,
                |a: HighlightTagRow| (a.highlight_id@, a.tag_id),
            );
            lemma_unchanged_doc_refs(pre, *self);
            assert forall|i: int, j: int|
                0 <= i < j < self.tags@.len() implies self.tags@[i].id != self.tags@[j].id by {
                assert(self.tags@[i] == pre.tags@.filter(tpred)[i]);
                assert(self.tags@[j] == pre.tags@.filter(tpred)[j]);
            }
            assert forall|i: int, j: int|
                0 <= i < j < self.tags@.len() implies self.tags@[i].name@
                != self.tags@[j].name@ by {
                assert(self.tags@[i] == pre.tags@.filter(tpred)[i]);
                assert(self.tags@[j] == pre.tags@.filter(tpred)[j]);
            }
            assert forall|i: int|
                0 <= i < self.tags@.len() implies self.tags@[i].id < self.next_tag_id by {
                assert(pre.tags@.contains(self.tags@[i]));
                let k = choose|k: int| 0 <= k < pre.tags@.len() && pre.tags@[k] == self.tags@[i];
                assert(pre.tags@[k].id < pre.next_tag_id);
            }
            assert forall|i: int|
                0 <= i < self.highlight_tags@.len() implies self.has_highlight_key(
                #[trigger] self.highlight_tags@[i].highlight_id@,
            ) by {
                assert(pre.highlight_tags@.contains(self.highlight_tags@[i]));
                let k = choose|k: int|
                    0 <= k < pre.highlight_tags@.len() && pre.highlight_tags@[k]
                        == self.highlight_tags@[i];
                assert(pre.has_highlight_key(pre.highlight_tags@[k].highlight_id@));
                let m = choose|m: int|
                    0 <= m < pre.highlights@.len() && pre.highlights@[m].highlight_id@
                        == pre.highlight_tags@[k].highlight_id@;
                assert(self.highlights@[m].highlight_id@
                    == self.highlight_tags@[i].highlight_id@);
            }
            assert forall|i: int|
                0 <= i < self.highlight_tags@.len() implies self.has_tag_id(
                #[trigger] self.highlight_tags@[i].tag_id,
            ) by {
                pre.highlight_tags@.lemma_filter_pred(apred, i);
                assert(self.highlight_tags@[i].tag_id != id);
                assert(pre.highlight_tags@.contains(self.highlight_tags@[i]));
                let k = choose|k: int|
                    0 <= k < pre.highlight_tags@.len() && pre.highlight_tags@[k]
                        == self.highlight_tags@[i];
                assert(pre.has_tag_id(pre.highlight_tags@[k].tag_id));
                let t = choose|t: int|
                    0 <= t < pre.tags@.len() && pre.tags@[t].id == pre.highlight_tags@[k].tag_id;
                assert(pre.tags@[t].id != id);
                pre.tags@.lemma_filter_contains(tpred, t);
                assert(self.tags@.contains(pre.tags@[t]));
                let n = choose|n: int| 0 <= n < self.tags@.len() && self.tags@[n] == pre.tags@[t];
                assert(self.tags@[n].id == self.highlight_tags@[i].tag_id);
            }
            assert forall|i: int, j: int|
                0 <= i < j < self.highlight_tags@.len() implies !(self.highlight_tags@[i].highlight_id@
                == self.highlight_tags@[j].highlight_id@ && self.highlight_tags@[i].tag_id
                == self.highlight_tags@[j].tag_id) by {
                assert(self.highlight_tags@[i] == pre.highlight_tags@.filter(apred)[i]);
                assert(self.highlight_tags@[j] == pre.highlight_tags@.filter(apred)[j]);
            }
        }
        found
    }

    /// Deletes every highlight whose stable identifier is `key`, cascading
    /// to the associations that reference it.  Returns whether a highlight
    /// row was removed; with no matching row the store is untouched.
    pub fn delete_highlight(&mut self, key: &String) -> (r: bool)
        requires
            old(self).wf(),
        ensures
            final(self).wf(),
            r == old(self).has_highlight_key(key@),
            highlight_delete_effect(*old(self), *final(self), key@),
    {
        let mut taken_highlights: Vec<HighlightRow> = Vec::new();
        core::mem::swap(&mut self.highlights, &mut taken_highlights);
        let (kept_highlights, found) = keep_highlights_not_key(taken_highlights, key);
        self.highlights = kept_highlights;
        let mut taken_assocs: Vec<HighlightTagRow> = Vec::new();
        core::mem::swap(&mut self.highlight_tags, &mut taken_assocs);
        let kept_assocs = keep_assocs_not_key(taken_assocs, key);
        self.highlight_tags = kept_assocs;
        proof {
            let pre = *old(self);
            let hpred = highlight_key_not(key@);
            let apred = assoc_key_not(key@);
            assert(self.highlights@ == pre.highlights@.filter(hpred));
            assert(self.highlight_tags@ == pre.highlight_tags@.filter(apred));
            pre.highlights@.lemma_filter_len(hpred);
            pre.highlight_tags@.lemma_filter_len(apred);
            crate::filtering::lemma_filter_members(pre.highlights@, hpred);
            crate::filtering::lemma_filter_members(pre.highlight_tags@, apred);
            crate::filtering::lemma_filter_distinct_keys(
                pre.highlights@,
                hpred,
                |h: HighlightRow| h.id,
            );
            crate::filtering::lemma_filter_distinct_keys(
                pre.highlight_tags@,
                apred,
                |a: HighlightTagRow| (a.highlight_id@, a.tag_id),
            );
            assert forall|i: int, j: int|
                0 <= i < j < self.highlights@.len() implies self.highlights@[i].id
                != self.highlights@[j].id by {
                assert(self.highlights@[i] == pre.highlights@.filter(hpred)[i]);
                assert(self.highlights@[j] == pre.highlights@.filter(hpred)[j]);
            }
            assert forall|i: int|
                0 <= i < self.highlights@.len() implies self.highlights@[i].id
                < self.next_highlight_row_id by {
                assert(pre.highlights@.contains(self.highlights@[i]));
                let k = choose|k: int|
                    0 <= k < pre.highlights@.len() && pre.highlights@[k] == self.highlights@[i];
                assert(pre.highlights@[k].id < pre.next_highlight_row_id);
            }
            assert forall|i: int|
                0 <= i < self.highlights@.len() implies self.has_document(
                #[trigger] self.highlights@[i].pdf_id,
            ) by {
                assert(pre.highlights@.contains(self.highlights@[i]));
                let k = choose|k: int|
                    0 <= k < pre.highlights@.len() && pre.highlights@[k] == self.highlights@[i];
                assert(pre.has_document(pre.highlights@[k].pdf_id));
                let m = choose|m: int|
                    0 <= m < pre.pdfs@.len() && pre.pdfs@[m].id == pre.highlights@[k].pdf_id;
                assert(self.pdfs@[m].id == self.highlights@[i].pdf_id);
            }
            assert forall|i: int|
                0 <= i < self.highlight_tags@.len() implies self.has_highlight_key(
                #[trigger] self.highlight_tags@[i].highlight_id@,
            ) by {
                pre.highlight_tags@.lemma_filter_pred(apred, i);
                assert(self.highlight_tags@[i].highlight_id@ != key@);
                assert(pre.highlight_tags@.contains(self.highlight_tags@[i]));
                let k = choose|k: int|
                    0 <= k < pre.highlight_tags@.len() && pre.highlight_tags@[k]
                        == self.highlight_tags@[i];
                assert(pre.has_highlight_key(pre.highlight_tags@[k].highlight_id@));
                let m = choose|m: int|
                    0 <= m < pre.highlights@.len() && pre.highlights@[m].highlight_id@
                        == pre.highlight_tags@[k].highlight_id@;
                assert(pre.highlights@[m].highlight_id@ != key@);
                pre.highlights@.lemma_filter_contains(hpred, m);
                assert(self.highlights@.contains(pre.highlights@[m]));
                let n = choose|n: int|
                    0 <= n < self.highlights@.len() && self.highlights@[n] == pre.highlights@[m];
                assert(self.highlights@[n].highlight_id@
                    == self.highlight_tags@[i].highlight_id@);
            }
            assert forall|i: int|
                0 <= i < self.highlight_tags@.len() implies self.has_tag_id(
                #[trigger] self.highlight_tags@[i].tag_id,
            ) by {
                assert(pre.highlight_tags@.contains(self.highlight_tags@[i]));
                let k = choose|k: int|
                    0 <= k < pre.highlight_tags@.len() && pre.highlight_tags@[k]
                        == self.highlight_tags@[i];
                assert(pre.has_tag_id(pre.highlight_tags@[k].tag_id));
                let t = choose|t: int|
                    0 <= t < pre.tags@.len() && pre.tags@[t].id == pre.highlight_tags@[k].tag_id;
                assert(self.tags@[t].id == self.highlight_tags@[i].tag_id);
            }
            assert forall|i: int, j: int|
                0 <= i < j < self.highlight_tags@.len() implies !(self.highlight_tags@[i].highlight_id@
                == self.highlight_tags@[j].highlight_id@ && self.highlight_tags@[i].tag_id
                == self.highlight_tags@[j].tag_id) by {
                assert(self.highlight_tags@[i] == pre.highlight_tags@.filter(apred)[i]);
                assert(self.highlight_tags@[j] == pre.highlight_tags@.filter(apred)[j]);
            }
            if self.schema.highlight_id_unique {
                crate::filtering::lemma_filter_distinct_keys(
                    pre.highlights@,
                    hpred,
                    |h: HighlightRow| h.highlight_id@,
                );
                assert forall|i: int, j: int|
                    0 <= i < j < self.highlights@.len() implies self.highlights@[i].highlight_id@
                    != self.highlights@[j].highlight_id@ by {
                    assert(self.highlights@[i] == pre.highlights@.filter(hpred)[i]);
                    assert(self.highlights@[j] == pre.highlights@.filter(hpred)[j]);
                }
            }
        }
        found
    }

    /// Whether a document with primary key `id` exists.
    pub fn contains_document(&self, id: u64) -> (r: bool)
        ensures
            r == self.has_document(id),
    {
        let mut i: usize = 0;
        while i < self.pdfs.len()
            invariant
                i <= self.pdfs@.len(),
                forall|k: int| 0 <= k < i ==> self.pdfs@[k].id != id,
            decreases self.pdfs@.len() - i,
        {
            if self.pdfs[i].id == id {
                return true;
            }
            i += 1;
        }
        false
    }

    /// Whether a highlight with the stable identifier `key` exists.
    pub fn contains_highlight(&self, key: &String) -> (r: bool)
        ensures
            r == self.has_highlight_key(key@),
    {
        vec_has_highlight_key(&self.highlights, key)
    }

    /// Whether a tag with primary key `id` exists.
    pub fn contains_tag(&self, id: u64) -> (r: bool)
        ensures
            r == self.has_tag_id(id),
    {
        let mut i: usize = 0;
        while i < self.tags.len()
            invariant
                i <= self.tags@.len(),
                forall|k: int| 0 <= k < i ==> self.tags@[k].id != id,
            decreases self.tags@.len() - i,
        {
            if self.tags[i].id == id {
                return true;
            }
            i += 1;
        }
        false
    }

    /// Whether a tag named `name` exists.
    pub fn contains_tag_name(&self, name: &String) -> (r: bool)
        ensures
            r == self.has_tag_name(name@),
    {
        let mut i: usize = 0;
        while i < self.tags.len()
            invariant
                i <= self.tags@.len(),
                forall|k: int| 0 <= k < i ==> self.tags@[k].name@ != name@,
            decreases self.tags@.len() - i,
        {
            if self.tags[i].name == *name {
                return true;
            }
            i += 1;
        }
        false
    }

    /// Whether the association table holds the pair (`key`, `tag_id`).
    pub fn contains_association(&self, key: &String, tag_id: u64) -> (r: bool)
        ensures
            r == self.has_association(key@, tag_id),
    {
        let mut i: usize = 0;
        while i < self.highlight_tags.len()
            invariant
                i <= self.highlight_tags@.len(),
                forall|k: int|
                    0 <= k < i ==> !(self.highlight_tags@[k].highlight_id@ == key@
                        && self.highlight_tags@[k].tag_id == tag_id),
            decreases self.highlight_tags@.len() - i,
        {
            if self.highlight_tags[i].tag_id == tag_id && self.highlight_tags[i].highlight_id
                == *key {
                return true;
            }
            i += 1;
        }
        false
    }
}

/// When neither the document nor the highlight table changed, every
/// highlight still resolves to its document.
pub(crate) proof fn lemma_unchanged_doc_refs(pre: Store, post: Store)
    requires
        post.pdfs@ == pre.pdfs@,
        post.highlights@ == pre.highlights@,
        forall|i: int|
            0 <= i < pre.highlights@.len() ==> pre.has_document(
                #[trigger] pre.highlights@[i].pdf_id,
            ),
    ensures
        forall|i: int|
            0 <= i < post.highlights@.len() ==> post.has_document(
                #[trigger] post.highlights@[i].pdf_id,
            ),
{
    assert forall|i: int|
        0 <= i < post.highlights@.len() implies post.has_document(
        #[trigger] post.highlights@[i].pdf_id,
    ) by {
        assert(pre.has_document(pre.highlights@[i].pdf_id));
        let k = choose|k: int|
            0 <= k < pre.pdfs@.len() && pre.pdfs@[k].id == pre.highlights@[i].pdf_id;
        assert(post.pdfs@[k].id == post.highlights@[i].pdf_id);
    }
}

/// When neither the highlight table nor the association table changed, every
/// association still resolves to a highlight.
pub(crate) proof fn lemma_unchanged_assoc_highlight_refs(pre: Store, post: Store)
    requires
        post.highlights@ == pre.highlights@,
        post.highlight_tags@ == pre.highlight_tags@,
        forall|i: int|
            0 <= i < pre.highlight_tags@.len() ==> pre.has_highlight_key(
                #[trigger] pre.highlight_tags@[i].highlight_id@,
            ),
    ensures
        forall|i: int|
            0 <= i < post.highlight_tags@.len() ==> post.has_highlight_key(
                #[trigger] post.highlight_tags@[i].highlight_id@,
            ),
{
    assert forall|i: int|
        0 <= i < post.highlight_tags@.len() implies post.has_highlight_key(
        #[trigger] post.highlight_tags@[i].highlight_id@,
    ) by {
        assert(pre.has_highlight_key(pre.highlight_tags@[i].highlight_id@));
        let k = choose|k: int|
            0 <= k < pre.highlights@.len() && pre.highlights@[k].highlight_id@
                == pre.highlight_tags@[i].highlight_id@;
        assert(post.highlights@[k].highlight_id@ == post.highlight_tags@[i].highlight_id@);
    }
}

/// When neither the tag table nor the association table changed, every
/// association still resolves to a tag.
pub(crate) proof fn lemma_unchanged_assoc_tag_refs(pre: Store, post: Store)
    requires
        post.tags@ == pre.tags@,
        post.highlight_tags@ == pre.highlight_tags@,
        forall|i: int|
            0 <= i < pre.highlight_tags@.len() ==> pre.has_tag_id(
                #[trigger] pre.highlight_tags@[i].tag_id,
            ),
    ensures
        forall|i: int|
            0 <= i < post.highlight_tags@.len() ==> post.has_tag_id(
                #[trigger] post.highlight_tags@[i].tag_id,
            ),
{
    assert forall|i: int|
        0 <= i < post.highlight_tags@.len() implies post.has_tag_id(
        #[trigger] post.highlight_tags@[i].tag_id,
    ) by {
        assert(pre.has_tag_id(pre.highlight_tags@[i].tag_id));
        let k = choose|k: int|
            0 <= k < pre.tags@.len() && pre.tags@[k].id == pre.highlight_tags@[i].tag_id;
        assert(post.tags@[k].id == post.highlight_tags@[i].tag_id);
    }
}

/// When the document, highlight and tag tables and their counters are
/// unchanged, their row invariants — unique keys, keys below the counter,
/// highlights resolving to documents — carry over.
pub(crate) proof fn lemma_row_table_invariants_transfer(pre: Store, post: Store)
    requires
        pre.wf(),
        post.pdfs@ == pre.pdfs@,
        post.highlights@ == pre.highlights@,
        post.tags@ == pre.tags@,
        post.next_document_id == pre.next_document_id,
        post.next_highlight_row_id == pre.next_highlight_row_id,
        post.next_tag_id == pre.next_tag_id,
    ensures
        forall|i: int, j: int|
            0 <= i < j < post.pdfs@.len() ==> post.pdfs@[i].id != post.pdfs@[j].id,
        forall|i: int| 0 <= i < post.pdfs@.len() ==> post.pdfs@[i].id < post.next_document_id,
        forall|i: int, j: int|
            0 <= i < j < post.highlights@.len() ==> post.highlights@[i].id
                != post.highlights@[j].id,
        forall|i: int|
            0 <= i < post.highlights@.len() ==> post.highlights@[i].id
                < post.next_highlight_row_id,
        forall|i: int, j: int|
            0 <= i < j < post.tags@.len() ==> post.tags@[i].id != post.tags@[j].id,
        forall|i: int, j: int|
            0 <= i < j < post.tags@.len() ==> post.tags@[i].name@ != post.tags@[j].name@,
        forall|i: int| 0 <= i < post.tags@.len() ==> post.tags@[i].id < post.next_tag_id,
        forall|i: int|
            0 <= i < post.highlights@.len() ==> post.has_document(
                #[trigger] post.highlights@[i].pdf_id,
            ),
        highlight_keys_distinct(pre.highlights@) ==> highlight_keys_distinct(post.highlights@),
{
    lemma_unchanged_doc_refs(pre, post);
}

/// Consumes `v` and keeps, in order, the rows whose id is not `id`; also
/// reports whether any row carried `id`.
fn keep_tags_not_id(mut v: Vec<TagRow>, id: u64) -> (r: (Vec<TagRow>, bool))
    ensures
        r.0@ == v@.filter(tag_id_not(id)),
        r.1 == (exists|k: int| 0 <= k < v@.len() && v@[k].id == id),
{
    let ghost orig = v@;
    let mut kept: Vec<TagRow> = Vec::new();
    let mut found = false;
    while v.len() > 0
        invariant
            v@.len() <= orig.len(),
            v@ == orig.skip(orig.len() - v@.len()),
            kept@ == orig.take(orig.len() - v@.len()).filter(tag_id_not(id)),
            found == (exists|k: int| 0 <= k < orig.len() - v@.len() && orig[k].id == id),
        decreases v@.len(),
    {
        let ghost done = orig.len() - v@.len();
        let ghost prev = v@;
        let row = v.remove(0);
        proof {
            assert(row == orig[done]);
            assert(prev.remove(0) =~= orig.skip(done + 1));
            assert(orig.take(done + 1) =~= orig.take(done).push(orig[done]));
            crate::filtering::lemma_filter_push(orig.take(done), orig[done], tag_id_not(id));
        }
        if row.id != id {
            kept.push(row);
        } else {
            found = true;
            proof {
                assert(orig[done].id == id);
            }
        }
    }
    proof {
        assert(orig.take(orig.len() as int) =~= orig);
    }
    (kept, found)
}

/// Consumes `v` and keeps, in order, the rows whose id is not `id`; also
/// reports whether any row carried `id`.
fn keep_pdfs_not_id(mut v: Vec<DocumentRow>, id: u64) -> (r: (Vec<DocumentRow>, bool))
    ensures
        r.0@ == v@.filter(doc_id_not(id)),
        r.1 == (exists|k: int| 0 <= k < v@.len() && v@[k].id == id),
{
    let ghost orig = v@;
    let mut kept: Vec<DocumentRow> = Vec::new();
    let mut found = false;
    while v.len() > 0
        invariant
            v@.len() <= orig.len(),
            v@ == orig.skip(orig.len() - v@.len()),
            kept@ == orig.take(orig.len() - v@.len()).filter(doc_id_not(id)),
            found == (exists|k: int| 0 <= k < orig.len() - v@.len() && orig[k].id == id),
        decreases v@.len(),
    {
        let ghost done = orig.len() - v@.len();
        let ghost prev = v@;
        let row = v.remove(0);
        proof {
            assert(row == orig[done]);
            assert(prev.remove(0) =~= orig.skip(done + 1));
            assert(orig.take(done + 1) =~= orig.take(done).push(orig[done]));
            crate::filtering::lemma_filter_push(orig.take(done), orig[done], doc_id_not(id));
        }
        if row.id != id {
            kept.push(row);
        } else {
            found = true;
            proof {
                assert(orig[done].id == id);
            }
        }
    }
    proof {
        assert(orig.take(orig.len() as int) =~= orig);
    }
    (kept, found)
}

/// Consumes `v` and keeps, in order, the rows not owned by document
/// `pdf_id`; also reports whether any row was owned by it.
fn keep_highlights_not_pdf(mut v: Vec<HighlightRow>, pdf_id: u64) -> (r: (Vec<HighlightRow>, bool))
    ensures
        r.0@ == v@.filter(highlight_owner_not(pdf_id)),
        r.1 == (exists|k: int| 0 <= k < v@.len() && v@[k].pdf_id == pdf_id),
{
    let ghost orig = v@;
    let mut kept: Vec<HighlightRow> = Vec::new();
    let mut found = false;
    while v.len() > 0
        invariant
            v@.len() <= orig.len(),
            v@ == orig.skip(orig.len() - v@.len()),
            kept@ == orig.take(orig.len() - v@.len()).filter(highlight_owner_not(pdf_id)),
            found == (exists|k: int| 0 <= k < orig.len() - v@.len() && orig[k].pdf_id == pdf_id),
        decreases v@.len(),
    {
        let ghost done = orig.len() - v@.len();
        let ghost prev = v@;
        let row = v.remove(0);
        proof {
            assert(row == orig[done]);
            assert(prev.remove(0) =~= orig.skip(done + 1));
            assert(orig.take(done + 1) =~= orig.take(done).push(orig[done]));
            crate::filtering::lemma_filter_push(
                orig.take(done),
                orig[done],
                highlight_owner_not(pdf_id),
            );
        }
        if row.pdf_id != pdf_id {
            kept.push(row);
        } else {
            found = true;
            proof {
                assert(orig[done].pdf_id == pdf_id);
            }
        }
    }
    proof {
        assert(orig.take(orig.len() as int) =~= orig);
    }
    (kept, found)
}

/// Consumes `v` and keeps, in order, the rows whose stable identifier is not
/// `key`; also reports whether any row carried `key`.
fn keep_highlights_not_key(mut v: Vec<HighlightRow>, key: &String) -> (r: (
    Vec<HighlightRow>,
    bool,
))
    ensures
        r.0@ == v@.filter(highlight_key_not(key@)),
        r.1 == seq_has_highlight_key(v@, key@),
{
    let ghost orig = v@;
    let mut kept: Vec<HighlightRow> = Vec::new();
    let mut found = false;
    while v.len() > 0
        invariant
            v@.len() <= orig.len(),
            v@ == orig.skip(orig.len() - v@.len()),
            kept@ == orig.take(orig.len() - v@.len()).filter(highlight_key_not(key@)),
            found == seq_has_highlight_key(orig.take(orig.len() - v@.len()), key@),
        decreases v@.len(),
    {
        let ghost done = orig.len() - v@.len();
        let ghost prev = v@;
        let row = v.remove(0);
        proof {
            assert(row == orig[done]);
            assert(prev.remove(0) =~= orig.skip(done + 1));
            assert(orig.take(done + 1) =~= orig.take(done).push(orig[done]));
            crate::filtering::lemma_filter_push(orig.take(done), orig[done], highlight_key_not(key@));
        }
        if row.highlight_id == *key {
            found = true;
            proof {
                assert(orig.take(done + 1)[done] == orig[done]);
                assert(seq_has_highlight_key(orig.take(done + 1), key@));
            }
        } else {
            kept.push(row);
            proof {
                assert forall|k: int|
                    0 <= k < done + 1 && orig.take(done + 1)[k].highlight_id@
                        == key@ implies orig.take(done)[k].highlight_id@ == key@ && 0 <= k
                    < done by {
                    assert(orig.take(done + 1)[k] == orig[k]);
                }
            }
        }
    }
    proof {
        assert(orig.take(orig.len() as int) =~= orig);
    }
    (kept, found)
}

/// Consumes `v` and keeps, in order, the rows whose tag is not `tag_id`.
fn keep_assocs_not_tag(mut v: Vec<HighlightTagRow>, tag_id: u64) -> (r: Vec<HighlightTagRow>)
    ensures
        r@ == v@.filter(assoc_tag_not(tag_id)),
{
    let ghost orig = v@;
    let mut kept: Vec<HighlightTagRow> = Vec::new();
    while v.len() > 0
        invariant
            v@.len() <= orig.len(),
            v@ == orig.skip(orig.len() - v@.len()),
            kept@ == orig.take(orig.len() - v@.len()).filter(assoc_tag_not(tag_id)),
        decreases v@.len(),
    {
        let ghost done = orig.len() - v@.len();
        let ghost prev = v@;
        let row = v.remove(0);
        proof {
            assert(row == orig[done]);
            assert(prev.remove(0) =~= orig.skip(done + 1));
            assert(orig.take(done + 1) =~= orig.take(done).push(orig[done]));
            crate::filtering::lemma_filter_push(orig.take(done), orig[done], assoc_tag_not(tag_id));
        }
        if row.tag_id != tag_id {
            kept.push(row);
        }
    }
    proof {
        assert(orig.take(orig.len() as int) =~= orig);
    }
    kept
}

/// Consumes `v` and keeps, in order, the rows whose highlight key is not
/// `key`.
fn keep_assocs_not_key(mut v: Vec<HighlightTagRow>, key: &String) -> (r: Vec<HighlightTagRow>)
    ensures
        r@ == v@.filter(assoc_key_not(key@)),
{
    let ghost orig = v@;
    let mut kept: Vec<HighlightTagRow> = Vec::new();
    while v.len() > 0
        invariant
            v@.len() <= orig.len(),
            v@ == orig.skip(orig.len() - v@.len()),
            kept@ == orig.take(orig.len() - v@.len()).filter(assoc_key_not(key@)),
        decreases v@.len(),
    {
        let ghost done = orig.len() - v@.len();
        let ghost prev = v@;
        let row = v.remove(0);
        proof {
            assert(row == orig[done]);
            assert(prev.remove(0) =~= orig.skip(done + 1));
            assert(orig.take(done + 1) =~= orig.take(done).push(orig[done]));
            crate::filtering::lemma_filter_push(orig.take(done), orig[done], assoc_key_not(key@));
        }
        if !(row.highlight_id == *key) {
            kept.push(row);
        }
    }
    proof {
        assert(orig.take(orig.len() as int) =~= orig);
    }
    kept
}

/// Consumes `v` and keeps, in order, the rows whose highlight still exists
/// among `live`.
fn keep_assocs_with_live_key(mut v: Vec<HighlightTagRow>, live: &Vec<HighlightRow>) -> (r: Vec<
    HighlightTagRow,
>)
    ensures
        r@ == v@.filter(assoc_key_live(live@)),
{
    let ghost orig = v@;
    let mut kept: Vec<HighlightTagRow> = Vec::new();
    while v.len() > 0
        invariant
            v@.len() <= orig.len(),
            v@ == orig.skip(orig.len() - v@.len()),
            kept@ == orig.take(orig.len() - v@.len()).filter(assoc_key_live(live@)),
        decreases v@.len(),
    {
        let ghost done = orig.len() - v@.len();
        let ghost prev = v@;
        let row = v.remove(0);
        proof {
            assert(row == orig[done]);
            assert(prev.remove(0) =~= orig.skip(done + 1));
            assert(orig.take(done + 1) =~= orig.take(done).push(orig[done]));
            crate::filtering::lemma_filter_push(orig.take(done), orig[done], assoc_key_live(live@));
        }
        if vec_has_highlight_key(live, &row.highlight_id) {
            kept.push(row);
        }
    }
    proof {
        assert(orig.take(orig.len() as int) =~= orig);
    }
    kept
}

/// Whether some row of `rows` carries the stable identifier `key`.
pub fn vec_has_highlight_key(rows: &Vec<HighlightRow>, key: &String) -> (r: bool)
    ensures
        r == seq_has_highlight_key(rows@, key@),
{
    let mut i: usize = 0;
    while i < rows.len()
        invariant
            i <= rows@.len(),
            forall|k: int| 0 <= k < i ==> rows@[k].highlight_id@ != key@,
        decreases rows@.len() - i,
    {
        if rows[i].highlight_id == *key {
            return true;
        }
        i += 1;
    }
    false
}

} // verus!
