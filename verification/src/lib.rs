//! A verified model of the highlight store behind a PDF-highlighting
//! application.
//!
//! The store keeps four tables — documents, highlights, tags, and the
//! highlight/tag association — and reaches its final shape through an ordered
//! sequence of versioned schema migrations.  The modules here model the store
//! as plain data, state what each migration step and each data operation does,
//! and prove the structural invariants the schema promises: resolvable
//! references, cascading deletes, and the uniqueness constraints that the
//! final rebuild step retrofits onto the highlight table.

pub mod filtering;
pub mod laws;
pub mod migrations;
pub mod rows;
pub mod schema;
pub mod store;
