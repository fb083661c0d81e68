use pdf_highlighter::rows::StoreError;
use pdf_highlighter::schema::Schema;
use pdf_highlighter::store::Store;

fn migrated_store() -> Store {
    let mut s = Store::new();
    s.apply_all().expect("a fresh store migrates cleanly");
    s
}

fn store_with_document() -> (Store, u64) {
    let mut s = migrated_store();
    let d = s.insert_document("paper".to_string(), "/tmp/paper.pdf".to_string(), 50).unwrap();
    (s, d)
}

#[test]
fn new_store_is_uninitialized() {
    let s = Store::new();
    assert_eq!(s.version, 0);
    assert!(!s.schema.has_pdfs);
    assert_eq!(s.pdfs.len(), 0);
    assert_eq!(s.highlights.len(), 0);
    assert_eq!(s.tags.len(), 0);
    assert_eq!(s.highlight_tags.len(), 0);
}

#[test]
fn insert_and_query_roundtrip() {
    let (mut s, d) = store_with_document();
    assert_eq!(d, 1);
    assert!(s.contains_document(d));
    assert!(!s.contains_document(77));
    let h = s
        .insert_highlight(
            d,
            "h-one".to_string(),
            Some("quoted".to_string()),
            Some("img-3".to_string()),
            "pos".to_string(),
            7,
            51,
        )
        .unwrap();
    assert_eq!(h, 1);
    let key = "h-one".to_string();
    assert!(s.contains_highlight(&key));
    let t = s.insert_tag("read".to_string(), 52).unwrap();
    assert_eq!(t, 1);
    let name = "read".to_string();
    assert!(s.contains_tag(t));
    assert!(s.contains_tag_name(&name));
    s.insert_highlight_tag("h-one".to_string(), t).unwrap();
    assert!(s.contains_association(&key, t));
    let row = &s.highlights[0];
    assert_eq!(row.pdf_id, d);
    assert_eq!(row.highlight_id, "h-one");
    assert_eq!(row.content_text.as_deref(), Some("quoted"));
    assert_eq!(row.content_image.as_deref(), Some("img-3"));
    assert_eq!(row.comment_text, None);
    assert_eq!(row.position_data, "pos");
    assert_eq!(row.page_number, 7);
    assert_eq!(row.created_at, 51);
}

#[test]
fn highlight_of_unknown_document_rejected() {
    let mut s = migrated_store();
    let r = s.insert_highlight(9, "h".to_string(), None, None, "pos".to_string(), 1, 60);
    assert_eq!(r, Err(StoreError::UnknownDocument));
    assert_eq!(s.highlights.len(), 0);
}

#[test]
fn duplicate_highlight_identifier_rejected_once_unique() {
    let (mut s, d) = store_with_document();
    s.insert_highlight(d, "same".to_string(), None, None, "a".to_string(), 1, 60).unwrap();
    let r = s.insert_highlight(d, "same".to_string(), None, None, "b".to_string(), 2, 61);
    assert_eq!(r, Err(StoreError::DuplicateHighlightId));
    assert_eq!(s.highlights.len(), 1);
}

#[test]
fn duplicate_highlight_identifier_accepted_before_rebuild() {
    let mut s = Store::new();
    for v in 1..=4 {
        s.apply_step(v).unwrap();
    }
    let d = s.insert_document("paper".to_string(), "/p.pdf".to_string(), 50).unwrap();
    s.insert_highlight(d, "same".to_string(), None, None, "a".to_string(), 1, 60).unwrap();
    let r = s.insert_highlight(d, "same".to_string(), None, None, "b".to_string(), 2, 61);
    assert!(r.is_ok());
    assert_eq!(s.highlights.len(), 2);
}

#[test]
fn duplicate_tag_name_rejected() {
    let mut s = migrated_store();
    s.insert_tag("work".to_string(), 10).unwrap();
    let r = s.insert_tag("work".to_string(), 11);
    assert_eq!(r, Err(StoreError::DuplicateTagName));
    assert_eq!(s.tags.len(), 1);
}

#[test]
fn association_needs_both_sides_and_is_unique() {
    let (mut s, d) = store_with_document();
    let t = s.insert_tag("read".to_string(), 52).unwrap();
    let r = s.insert_highlight_tag("missing".to_string(), t);
    assert_eq!(r, Err(StoreError::UnknownHighlight));
    s.insert_highlight(d, "h-one".to_string(), None, None, "pos".to_string(), 1, 53).unwrap();
    let r = s.insert_highlight_tag("h-one".to_string(), 99);
    assert_eq!(r, Err(StoreError::UnknownTag));
    s.insert_highlight_tag("h-one".to_string(), t).unwrap();
    let r = s.insert_highlight_tag("h-one".to_string(), t);
    assert_eq!(r, Err(StoreError::DuplicateAssociation));
    assert_eq!(s.highlight_tags.len(), 1);
}

#[test]
fn deleting_a_document_cascades_to_its_highlights_and_associations() {
    let mut s = migrated_store();
    let d1 = s.insert_document("one".to_string(), "/1.pdf".to_string(), 10).unwrap();
    let d2 = s.insert_document("two".to_string(), "/2.pdf".to_string(), 11).unwrap();
    s.insert_highlight(d1, "h-a".to_string(), None, None, "p".to_string(), 1, 20).unwrap();
    s.insert_highlight(d1, "h-b".to_string(), None, None, "p".to_string(), 2, 21).unwrap();
    s.insert_highlight(d2, "h-c".to_string(), None, None, "p".to_string(), 3, 22).unwrap();
    let t = s.insert_tag("read".to_string(), 30).unwrap();
    s.insert_highlight_tag("h-a".to_string(), t).unwrap();
    s.insert_highlight_tag("h-c".to_string(), t).unwrap();
    assert!(s.delete_document(d1));
    assert_eq!(s.pdfs.len(), 1);
    assert_eq!(s.pdfs[0].id, d2);
    assert_eq!(s.highlights.len(), 1);
    assert_eq!(s.highlights[0].highlight_id, "h-c");
    assert_eq!(s.highlight_tags.len(), 1);
    assert_eq!(s.highlight_tags[0].highlight_id, "h-c");
    // The tag table is untouched by a document delete.
    assert_eq!(s.tags.len(), 1);
    // Deleting a missing document is a no-op.
    assert!(!s.delete_document(d1));
    assert_eq!(s.pdfs.len(), 1);
}

#[test]
fn deleting_a_tag_leaves_highlights_intact() {
    let mut s = migrated_store();
    let d = s.insert_document("one".to_string(), "/1.pdf".to_string(), 10).unwrap();
    s.insert_highlight(d, "h-a".to_string(), None, None, "p".to_string(), 1, 20).unwrap();
    s.insert_highlight(d, "h-b".to_string(), None, None, "p".to_string(), 2, 21).unwrap();
    let t1 = s.insert_tag("read".to_string(), 30).unwrap();
    let t2 = s.insert_tag("later".to_string(), 31).unwrap();
    s.insert_highlight_tag("h-a".to_string(), t1).unwrap();
    s.insert_highlight_tag("h-a".to_string(), t2).unwrap();
    s.insert_highlight_tag("h-b".to_string(), t1).unwrap();
    assert!(s.delete_tag(t1));
    assert_eq!(s.tags.len(), 1);
    assert_eq!(s.tags[0].id, t2);
    assert_eq!(s.highlights.len(), 2);
    assert_eq!(s.highlight_tags.len(), 1);
    assert_eq!(s.highlight_tags[0].tag_id, t2);
    assert!(!s.delete_tag(t1));
}

#[test]
fn deleting_a_highlight_cascades_to_its_associations() {
    let (mut s, d) = store_with_document();
    s.insert_highlight(d, "h-a".to_string(), None, None, "p".to_string(), 1, 20).unwrap();
    s.insert_highlight(d, "h-b".to_string(), None, None, "p".to_string(), 2, 21).unwrap();
    let t = s.insert_tag("read".to_string(), 30).unwrap();
    s.insert_highlight_tag("h-a".to_string(), t).unwrap();
    s.insert_highlight_tag("h-b".to_string(), t).unwrap();
    let key = "h-a".to_string();
    assert!(s.delete_highlight(&key));
    assert_eq!(s.highlights.len(), 1);
    assert_eq!(s.highlights[0].highlight_id, "h-b");
    assert_eq!(s.highlight_tags.len(), 1);
    assert_eq!(s.highlight_tags[0].highlight_id, "h-b");
    assert!(s.contains_document(d));
    assert!(!s.delete_highlight(&key));
}

#[test]
fn touching_a_document_updates_only_last_opened() {
    let mut s = migrated_store();
    let d = s.insert_document("one".to_string(), "/1.pdf".to_string(), 10).unwrap();
    s.touch_document(d, 99).unwrap();
    assert_eq!(s.pdfs[0].date_added, 10);
    assert_eq!(s.pdfs[0].last_opened, 99);
    assert_eq!(s.pdfs[0].name, "one");
    let r = s.touch_document(42, 100);
    assert_eq!(r, Err(StoreError::UnknownDocument));
}

#[test]
fn comment_fields_are_the_only_mutable_highlight_fields() {
    let (mut s, d) = store_with_document();
    s.insert_highlight(d, "h-a".to_string(), Some("text".to_string()), None, "p".to_string(), 1, 20)
        .unwrap();
    let key = "h-a".to_string();
    s.update_highlight_comment(&key, Some("note".to_string()), Some("star".to_string())).unwrap();
    let row = &s.highlights[0];
    assert_eq!(row.comment_text.as_deref(), Some("note"));
    assert_eq!(row.comment_emoji.as_deref(), Some("star"));
    assert_eq!(row.content_text.as_deref(), Some("text"));
    assert_eq!(row.created_at, 20);
    let missing = "h-z".to_string();
    let r = s.update_highlight_comment(&missing, None, None);
    assert_eq!(r, Err(StoreError::UnknownHighlight));
}

#[test]
fn spent_key_counter_reports_capacity_exhausted() {
    let mut s = migrated_store();
    s.next_tag_id = u64::MAX;
    let r = s.insert_tag("work".to_string(), 10);
    assert_eq!(r, Err(StoreError::CapacityExhausted));
    assert_eq!(s.tags.len(), 0);
}

#[test]
fn schema_equality_is_field_wise() {
    let a = Schema {
        has_pdfs: true,
        has_highlights: true,
        has_tags: true,
        has_highlight_tags: true,
        highlight_id_unique: true,
    };
    let s = migrated_store();
    assert_eq!(s.schema, a);
}
