//! The structural state of the store: which tables exist and which
//! constraints are enforced.
//!
//! The store's structure is fully determined by its applied-version
//! watermark, so the schema is a pure function of the version number.

use vstd::prelude::*;

verus! {

/// The highest migration version this library declares.
pub const LATEST_VERSION: u32 = 5;

/// The version of the step that rebuilds the highlight table to enforce
/// uniqueness of the stable highlight identifier.
pub const REBUILD_VERSION: u32 = 5;

/// Which tables exist, and whether the stable highlight identifier is
/// unique-constrained.  The column layout of each table is fixed by the row
/// types; this struct records only what varies across migration versions.
#[derive(Debug, Clone, Copy, PartialEq, Eq, Structural)]
pub struct Schema {
    /// The document table exists (version 1 onward).
    pub has_pdfs: bool,
    /// The highlight table exists (version 2 onward).
    pub has_highlights: bool,
    /// The tag table exists (version 3 onward).
    pub has_tags: bool,
    /// The association table exists (version 4 onward).
    pub has_highlight_tags: bool,
    /// The stable highlight identifier is unique-constrained (version 5
    /// onward).
    pub highlight_id_unique: bool,
}

/// The schema a store has once every step up to `version` has been applied.
pub open spec fn schema_at(version: u32) -> Schema {
    Schema {
        has_pdfs: version >= 1,
        has_highlights: version >= 2,
        has_tags: version >= 3,
        has_highlight_tags: version >= 4,
        highlight_id_unique: version >= REBUILD_VERSION,
    }
}

/// Computes the schema that belongs to an applied-version watermark.
pub fn schema_for_version(version: u32) -> (s: Schema)
    ensures
        s == schema_at(version),
{
    Schema {
        has_pdfs: version >= 1,
        has_highlights: version >= 2,
        has_tags: version >= 3,
        has_highlight_tags: version >= 4,
        highlight_id_unique: version >= REBUILD_VERSION,
    }
}

} // verus!
