//! The rows the store persists, and the errors its operations report.
//!
//! Timestamps are plain integers: the embedded engine stores whatever clock
//! value the caller hands in, so the model carries them as opaque numbers.

use vstd::prelude::*;

verus! {

/// A row of the document table: one added PDF.
#[derive(Debug, Clone, PartialEq, Eq)]
pub struct DocumentRow {
    /// Auto-incremented primary key.
    pub id: u64,
    /// Display name of the document.
    pub name: String,
    /// Filesystem path the document was opened from.
    pub path: String,
    /// Clock value at creation.
    pub date_added: u64,
    /// Clock value of the most recent open.
    pub last_opened: u64,
}

/// A row of the highlight table: one highlighted passage of a document.
#[derive(Debug, Clone, PartialEq, Eq)]
pub struct HighlightRow {
    /// Auto-incremented primary key.
    pub id: u64,
    /// The owning document's primary key; deleting the document deletes the
    /// highlight.
    pub pdf_id: u64,
    /// Externally generated stable identifier.  The association table refers
    /// to highlights by this key, and from the final schema version on it is
    /// unique store-wide.
    pub highlight_id: String,
    /// Extracted text, when the highlight covers text.
    pub content_text: Option<String>,
    /// Reference to an extracted image region, when one exists.
    pub content_image: Option<String>,
    /// Free-form user comment.
    pub comment_text: Option<String>,
    /// Emoji annotation attached to the comment.
    pub comment_emoji: Option<String>,
    /// Serialized position and geometry data.
    pub position_data: String,
    /// Page the highlight sits on.
    pub page_number: u32,
    /// Clock value at creation.
    pub created_at: u64,
}

/// A row of the tag table: one tag name.
#[derive(Debug, Clone, PartialEq, Eq)]
pub struct TagRow {
    /// Auto-incremented primary key.
    pub id: u64,
    /// Tag name, unique store-wide.
    pub name: String,
    /// Clock value at creation.
    pub created_at: u64,
}

/// A row of the association table: one tag attached to one highlight.
/// The pair is the composite primary key.
#[derive(Debug, Clone, PartialEq, Eq)]
pub struct HighlightTagRow {
    /// The stable identifier of the tagged highlight.
    pub highlight_id: String,
    /// The primary key of the attached tag.
    pub tag_id: u64,
}

/// A constraint violation reported by a data operation.  The operation does
/// not take effect; the store is left unchanged.
#[derive(Debug, Clone, Copy, PartialEq, Eq, Structural)]
pub enum StoreError {
    /// The referenced document does not exist.
    UnknownDocument,
    /// No highlight carries the referenced stable identifier.
    UnknownHighlight,
    /// The referenced tag does not exist.
    UnknownTag,
    /// A highlight with this stable identifier already exists and the schema
    /// enforces uniqueness.
    DuplicateHighlightId,
    /// A tag with this name already exists.
    DuplicateTagName,
    /// This tag is already attached to this highlight.
    DuplicateAssociation,
    /// An auto-increment counter is spent; no further row can be keyed.
    CapacityExhausted,
}

/// A failed migration step.  The step had no effect and the watermark stayed
/// at the last committed version; startup cannot proceed.
#[derive(Debug, Clone, Copy, PartialEq, Eq, Structural)]
pub struct MigrationError {
    /// The version of the step that failed.
    pub version: u32,
}

} // verus!
