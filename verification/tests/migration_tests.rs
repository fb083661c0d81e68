use pdf_highlighter::migrations::{migrations, MigrationDirection};
use pdf_highlighter::rows::MigrationError;
use pdf_highlighter::store::Store;

fn store_at_version(v: u32) -> Store {
    let mut s = Store::new();
    let mut next: u32 = 1;
    while next <= v {
        s.apply_step(next).expect("step below the rebuild cannot fail");
        next += 1;
    }
    s
}

#[test]
fn fresh_store_full_migration() {
    let mut s = Store::new();
    let applied = s.apply_all().expect("a fresh store migrates cleanly");
    assert_eq!(applied, vec![1, 2, 3, 4, 5]);
    assert_eq!(s.version, 5);
    assert!(s.schema.has_pdfs);
    assert!(s.schema.has_highlights);
    assert!(s.schema.has_tags);
    assert!(s.schema.has_highlight_tags);
    assert!(s.schema.highlight_id_unique);
    assert_eq!(s.pdfs.len(), 0);
    assert_eq!(s.highlights.len(), 0);
    assert_eq!(s.tags.len(), 0);
    assert_eq!(s.highlight_tags.len(), 0);
}

#[test]
fn second_run_applies_nothing() {
    let mut s = Store::new();
    s.apply_all().expect("first run succeeds");
    let schema_once = s.schema;
    let applied_again = s.apply_all().expect("second run succeeds");
    assert_eq!(applied_again, Vec::<u32>::new());
    assert_eq!(s.version, 5);
    assert_eq!(s.schema, schema_once);
}

#[test]
fn resumes_from_watermark_two() {
    let mut s = store_at_version(2);
    assert_eq!(s.version, 2);
    assert!(!s.schema.has_tags);
    let applied = s.apply_all().expect("resumption succeeds");
    assert_eq!(applied, vec![3, 4, 5]);
    assert_eq!(s.version, 5);
}

#[test]
fn rebuild_preserves_existing_rows() {
    let mut s = store_at_version(4);
    let d = s.insert_document("paper".to_string(), "/tmp/paper.pdf".to_string(), 100).unwrap();
    s.insert_highlight(
        d,
        "h-one".to_string(),
        Some("quoted text".to_string()),
        None,
        "pos-1".to_string(),
        3,
        101,
    )
    .unwrap();
    s.insert_highlight(d, "h-two".to_string(), None, None, "pos-2".to_string(), 4, 102).unwrap();
    let t = s.insert_tag("read".to_string(), 103).unwrap();
    s.insert_highlight_tag("h-one".to_string(), t).unwrap();
    let highlights_before = s.highlights.clone();
    let assocs_before = s.highlight_tags.clone();
    let applied = s.apply_all().expect("distinct identifiers rebuild cleanly");
    assert_eq!(applied, vec![5]);
    assert_eq!(s.version, 5);
    assert!(s.schema.highlight_id_unique);
    assert_eq!(s.highlights, highlights_before);
    assert_eq!(s.highlight_tags, assocs_before);
}

#[test]
fn duplicate_identifiers_fail_rebuild_atomically() {
    let mut s = store_at_version(4);
    let d = s.insert_document("paper".to_string(), "/tmp/paper.pdf".to_string(), 100).unwrap();
    s.insert_highlight(d, "same".to_string(), None, None, "pos-1".to_string(), 1, 101).unwrap();
    s.insert_highlight(d, "same".to_string(), None, None, "pos-2".to_string(), 2, 102).unwrap();
    let highlights_before = s.highlights.clone();
    let err = s.apply_all().expect_err("a duplicate identifier must stop the rebuild");
    assert_eq!(err, MigrationError { version: 5 });
    assert_eq!(s.version, 4);
    assert!(!s.schema.highlight_id_unique);
    assert_eq!(s.highlights, highlights_before);
    // Removing the offending rows makes a retry from the same watermark
    // succeed.
    let key = "same".to_string();
    assert!(s.delete_highlight(&key));
    let applied = s.apply_all().expect("the retry succeeds once the duplicates are gone");
    assert_eq!(applied, vec![5]);
    assert_eq!(s.version, 5);
}

#[test]
fn migration_list_is_the_declared_sequence() {
    let steps = migrations();
    assert_eq!(steps.len(), 5);
    for (i, step) in steps.iter().enumerate() {
        assert_eq!(step.version, (i + 1) as u32);
        assert_eq!(step.direction, MigrationDirection::Up);
        assert!(!step.sql.is_empty());
    }
    assert_eq!(steps[0].description, "create_pdfs_table");
    assert_eq!(steps[1].description, "create_highlights_table");
    assert_eq!(steps[2].description, "create_tags_table");
    assert_eq!(steps[3].description, "create_highlight_tags_table");
    assert_eq!(steps[4].description, "add_unique_constraint_to_highlight_id");
}

#[test]
fn migration_sql_declares_the_schema() {
    let steps = migrations();
    assert!(steps[0].sql.contains("CREATE TABLE IF NOT EXISTS pdfs"));
    assert!(steps[1].sql.contains("CREATE TABLE IF NOT EXISTS highlights"));
    // The stable identifier is deliberately not yet unique at version 2.
    assert!(steps[1].sql.contains("highlight_id TEXT NOT NULL,"));
    assert!(!steps[1].sql.contains("highlight_id TEXT NOT NULL UNIQUE"));
    assert!(steps[1].sql.contains("FOREIGN KEY (pdf_id) REFERENCES pdfs(id) ON DELETE CASCADE"));
    assert!(steps[2].sql.contains("name TEXT NOT NULL UNIQUE"));
    assert!(steps[3].sql.contains("PRIMARY KEY (highlight_id, tag_id)"));
    assert!(steps[3].sql.contains(
        "FOREIGN KEY (highlight_id) REFERENCES highlights(highlight_id) ON DELETE CASCADE"
    ));
    assert!(steps[3].sql.contains("FOREIGN KEY (tag_id) REFERENCES tags(id) ON DELETE CASCADE"));
    assert!(steps[4].sql.contains("highlight_id TEXT NOT NULL UNIQUE"));
}

#[test]
fn rebuild_sql_orders_the_steps_strictly() {
    let steps = migrations();
    let sql = steps[4].sql;
    let copy_rows = sql.find("INSERT INTO highlights_new SELECT * FROM highlights").unwrap();
    let save_assocs = sql.find("INSERT INTO highlight_tags_saved SELECT * FROM highlight_tags").unwrap();
    let drop_assocs = sql.find("DROP TABLE IF EXISTS highlight_tags;").unwrap();
    let drop_old = sql.find("DROP TABLE highlights;").unwrap();
    let rename = sql.find("ALTER TABLE highlights_new RENAME TO highlights").unwrap();
    let recreate_assocs = sql.find("CREATE TABLE highlight_tags (").unwrap();
    let restore_assocs = sql.find("INSERT INTO highlight_tags SELECT * FROM highlight_tags_saved").unwrap();
    // The dependent table is saved and dropped before its parent goes away;
    // the parent is renamed into place before the dependent is recreated
    // against the unique column; the saved rows come back last.
    assert!(copy_rows < drop_assocs);
    assert!(save_assocs < drop_assocs);
    assert!(drop_assocs < drop_old);
    assert!(drop_old < rename);
    assert!(rename < recreate_assocs);
    assert!(recreate_assocs < restore_assocs);
    // A retry after an interruption first clears any leftover tables.
    let clear_leftover = sql.find("DROP TABLE IF EXISTS highlights_new;").unwrap();
    assert!(clear_leftover < copy_rows);
}

#[test]
fn steps_apply_one_version_at_a_time() {
    let mut s = Store::new();
    s.apply_step(1).unwrap();
    assert_eq!(s.version, 1);
    assert!(s.schema.has_pdfs);
    assert!(!s.schema.has_highlights);
    s.apply_step(2).unwrap();
    assert_eq!(s.version, 2);
    assert!(s.schema.has_highlights);
    assert!(!s.schema.has_tags);
    s.apply_step(3).unwrap();
    assert!(s.schema.has_tags);
    assert!(!s.schema.has_highlight_tags);
    s.apply_step(4).unwrap();
    assert!(s.schema.has_highlight_tags);
    assert!(!s.schema.highlight_id_unique);
    s.apply_step(5).unwrap();
    assert!(s.schema.highlight_id_unique);
    assert_eq!(s.version, 5);
}
