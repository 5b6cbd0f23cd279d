use silto::migration::{
    convert_legacy_note, convert_legacy_todo, migrate_if_empty, note_row, todo_row,
    LegacyDocument, LegacyNote, LegacyTodo, MigrationError, MigrationOutcome,
};
use silto::models::{Note, Todo};
use silto::store::Store;

fn legacy_todo(id: &str, created_at: &str, remind_time: Option<&str>) -> LegacyTodo {
    LegacyTodo {
        id: id.to_string(),
        title: "title".to_string(),
        content: "content".to_string(),
        remind_time: remind_time.map(|s| s.to_string()),
        completed: false,
        created_at: created_at.to_string(),
        notified: false,
    }
}

fn legacy_note(id: &str, created_at: &str, updated_at: &str) -> LegacyNote {
    LegacyNote {
        id: id.to_string(),
        title: "n".to_string(),
        content: "c".to_string(),
        created_at: created_at.to_string(),
        updated_at: updated_at.to_string(),
    }
}

// 2024-01-01T00:00:00Z as seconds since the Unix epoch.
const Y2024: i64 = 1_704_067_200;

#[test]
fn legacy_import_skips_malformed_and_counts_the_rest() {
    // Legacy document with two importable todos, one with a malformed
    // timestamp, and one structurally malformed element: the malformed two
    // are skipped silently, the rest land in the empty store.
    let doc = LegacyDocument {
        todos: vec![
            Some(legacy_todo("t1", "2024-01-01T00:00:00Z", None)),
            Some(legacy_todo("bad", "not a timestamp", None)),
            None,
            Some(legacy_todo("t2", "2024-01-01T01:00:00+00:00", Some("2024-01-01T02:00:00Z"))),
        ],
        notes: vec![],
    };
    let mut store = Store::new();
    let r = migrate_if_empty(&mut store, Some(&doc));

    assert_eq!(r, Ok(MigrationOutcome::Migrated { todos_migrated: 2, notes_migrated: 0 }));
    assert_eq!(store.get_todos().len(), 2);
    assert_eq!(store.get_todos()[0].id, "t1");
    assert_eq!(store.get_todos()[0].created_at, Y2024);
    assert_eq!(store.get_todos()[0].remind_time, None);
    assert_eq!(store.get_todos()[1].id, "t2");
    assert_eq!(store.get_todos()[1].created_at, Y2024 + 3600);
    assert_eq!(store.get_todos()[1].remind_time, Some(Y2024 + 7200));
}

#[test]
fn migration_is_noop_when_store_already_populated() {
    // A target store that already holds one todo is left untouched even
    // though a legacy document exists.
    let mut store = Store::new();
    store.save_todo(
        Todo {
            id: "existing".to_string(),
            title: "t".to_string(),
            content: "c".to_string(),
            remind_time: None,
            completed: false,
            created_at: 5,
            notified: false,
        },
        0,
    );
    let doc = LegacyDocument {
        todos: vec![Some(legacy_todo("t1", "2024-01-01T00:00:00Z", None))],
        notes: vec![],
    };

    let r = migrate_if_empty(&mut store, Some(&doc));
    assert_eq!(r, Ok(MigrationOutcome::AlreadyPopulated));
    assert_eq!(store.get_todos().len(), 1);
    assert_eq!(store.get_todos()[0].id, "existing");
}

#[test]
fn migrate_twice_writes_nothing_the_second_time() {
    // Idempotence: the second run sees a populated store and no-ops.
    let doc = LegacyDocument {
        todos: vec![Some(legacy_todo("t1", "2024-01-01T00:00:00Z", None))],
        notes: vec![Some(legacy_note("n1", "2024-01-01T00:00:00Z", "2024-01-02T00:00:00Z"))],
    };
    let mut store = Store::new();
    let first = migrate_if_empty(&mut store, Some(&doc));
    assert_eq!(first, Ok(MigrationOutcome::Migrated { todos_migrated: 1, notes_migrated: 1 }));

    let second = migrate_if_empty(&mut store, Some(&doc));
    assert_eq!(second, Ok(MigrationOutcome::AlreadyPopulated));
    assert_eq!(store.get_todos().len(), 1);
    assert_eq!(store.get_notes().len(), 1);
}

#[test]
fn migration_without_legacy_document_is_noop() {
    let mut store = Store::new();
    let r = migrate_if_empty(&mut store, None);
    assert_eq!(r, Ok(MigrationOutcome::NoLegacyData));
    assert_eq!(store.get_todos().len(), 0);
    assert_eq!(store.get_notes().len(), 0);
}

#[test]
fn duplicate_todo_id_fails_fast() {
    // Two importable todos with the same id: the second plain insert
    // fails, the run stops, and the first insert is left in place.
    let doc = LegacyDocument {
        todos: vec![
            Some(legacy_todo("dup", "2024-01-01T00:00:00Z", None)),
            Some(legacy_todo("dup", "2024-01-01T01:00:00Z", None)),
            Some(legacy_todo("later", "2024-01-01T02:00:00Z", None)),
        ],
        notes: vec![],
    };
    let mut store = Store::new();
    let r = migrate_if_empty(&mut store, Some(&doc));
    assert_eq!(r, Err(MigrationError::DuplicateTodoId));
    assert_eq!(store.get_todos().len(), 1);
    assert_eq!(store.get_todos()[0].created_at, Y2024);
}

#[test]
fn duplicate_note_id_fails_fast_after_todos() {
    let doc = LegacyDocument {
        todos: vec![Some(legacy_todo("t1", "2024-01-01T00:00:00Z", None))],
        notes: vec![
            Some(legacy_note("n", "2024-01-01T00:00:00Z", "2024-01-01T00:00:00Z")),
            Some(legacy_note("n", "2024-01-01T01:00:00Z", "2024-01-01T01:00:00Z")),
        ],
    };
    let mut store = Store::new();
    let r = migrate_if_empty(&mut store, Some(&doc));
    assert_eq!(r, Err(MigrationError::DuplicateNoteId));
    assert_eq!(store.get_todos().len(), 1);
    assert_eq!(store.get_notes().len(), 1);
}

#[test]
fn convert_validates_timestamps() {
    let good = legacy_todo("a", "2024-01-01T00:00:00Z", Some("2024-06-01T12:30:00+02:00"));
    let t = convert_legacy_todo(&good).expect("importable");
    assert_eq!(t.created_at, Y2024);
    // 2024-06-01T12:30:00+02:00 is 10:30:00 UTC
    assert_eq!(t.remind_time, Some(1_717_237_800));

    assert!(convert_legacy_todo(&legacy_todo("b", "yesterday", None)).is_none());
    assert!(convert_legacy_todo(&legacy_todo("c", "2024-01-01T00:00:00Z", Some("soon"))).is_none());

    let n = convert_legacy_note(&legacy_note("n", "2024-01-01T00:00:00Z", "2024-01-01T00:00:01Z"))
        .expect("importable");
    assert_eq!(n.created_at, Y2024);
    assert_eq!(n.updated_at, Y2024 + 1);
    assert!(convert_legacy_note(&legacy_note("n2", "bad", "2024-01-01T00:00:00Z")).is_none());
}

#[test]
fn legacy_notified_flag_is_carried_over() {
    let mut lt = legacy_todo("t1", "2024-01-01T00:00:00Z", Some("2023-12-31T00:00:00Z"));
    lt.notified = true;
    let t = convert_legacy_todo(&lt).expect("importable");
    assert!(t.notified);
}

#[test]
fn rows_carry_canonical_rfc3339_text() {
    // The relational store takes timestamps as text: rows are written in
    // canonical RFC 3339 form, whatever form the legacy document used.
    let t = Todo {
        id: "t1".to_string(),
        title: "a".to_string(),
        content: "b".to_string(),
        remind_time: Some(Y2024 + 7200),
        completed: true,
        created_at: Y2024,
        notified: true,
    };
    let row = todo_row(&t);
    assert_eq!(row.created_at, "2024-01-01T00:00:00+00:00");
    assert_eq!(row.remind_time.as_deref(), Some("2024-01-01T02:00:00+00:00"));
    assert!(row.completed);
    assert!(row.notified);

    let none_row = todo_row(&Todo { remind_time: None, ..t });
    assert_eq!(none_row.remind_time, None);

    let n = Note {
        id: "n1".to_string(),
        title: "x".to_string(),
        content: "y".to_string(),
        created_at: Y2024,
        updated_at: Y2024 + 1,
    };
    let nrow = note_row(&n);
    assert_eq!(nrow.created_at, "2024-01-01T00:00:00+00:00");
    assert_eq!(nrow.updated_at, "2024-01-01T00:00:01+00:00");
}
