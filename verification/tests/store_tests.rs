use silto::models::{get_settings, LeftClickAction, NotificationState, Note, Settings, Theme, Todo};
use silto::store::Store;

fn todo(id: &str, remind_time: Option<i64>, notified: bool) -> Todo {
    Todo {
        id: id.to_string(),
        title: "t".to_string(),
        content: "c".to_string(),
        remind_time,
        completed: false,
        created_at: 1,
        notified,
    }
}

fn note(id: &str, title: &str) -> Note {
    Note {
        id: id.to_string(),
        title: title.to_string(),
        content: "body".to_string(),
        created_at: 2,
        updated_at: 3,
    }
}

const NOW: i64 = 1_700_000_000;

#[test]
fn save_todo_inserts_then_updates_in_place() {
    let mut store = Store::new();
    store.save_todo(todo("a", None, false), NOW);
    store.save_todo(todo("b", None, false), NOW);
    assert_eq!(store.get_todos().len(), 2);

    let mut edited = todo("a", None, false);
    edited.title = "new title".to_string();
    store.save_todo(edited, NOW);
    assert_eq!(store.get_todos().len(), 2);
    assert_eq!(store.get_todos()[0].id, "a");
    assert_eq!(store.get_todos()[0].title, "new title");
    assert_eq!(store.get_todos()[1].id, "b");
}

#[test]
fn upsert_future_reminder_resets_notified() {
    // Reset law: a new reminder strictly in the future forces
    // notified = false, whatever it was before.
    let mut store = Store::new();
    store.save_todo(todo("a", Some(NOW - 5), false), NOW);
    store.mark_alerted(&"a".to_string());
    assert!(store.get_todos()[0].notified);

    let edited = todo("a", Some(NOW + 3600), true);
    store.save_todo(edited, NOW);
    assert!(!store.get_todos()[0].notified);
}

#[test]
fn upsert_unset_reminder_resets_notified() {
    let mut store = Store::new();
    store.save_todo(todo("a", None, true), NOW);
    assert!(!store.get_todos()[0].notified);
}

#[test]
fn upsert_due_reminder_keeps_notified() {
    // A reminder already due keeps a delivered alert recorded.
    let mut store = Store::new();
    store.save_todo(todo("a", Some(NOW - 60), true), NOW);
    assert!(store.get_todos()[0].notified);
}

#[test]
fn delete_todo_removes_only_that_id() {
    let mut store = Store::new();
    store.save_todo(todo("a", None, false), NOW);
    store.save_todo(todo("b", None, false), NOW);
    store.delete_todo(&"a".to_string());
    assert_eq!(store.get_todos().len(), 1);
    assert_eq!(store.get_todos()[0].id, "b");
    store.delete_todo(&"missing".to_string());
    assert_eq!(store.get_todos().len(), 1);
}

#[test]
fn mark_alerted_touches_one_record() {
    let mut store = Store::new();
    store.save_todo(todo("a", Some(NOW - 5), false), NOW);
    store.save_todo(todo("b", Some(NOW - 5), false), NOW);

    assert!(store.mark_alerted(&"b".to_string()));
    assert!(!store.get_todos()[0].notified);
    assert!(store.get_todos()[1].notified);
    assert!(!store.mark_alerted(&"zzz".to_string()));
}

#[test]
fn save_and_delete_notes() {
    let mut store = Store::new();
    store.save_note(note("n1", "first"));
    store.save_note(note("n2", "second"));
    assert_eq!(store.get_notes().len(), 2);

    store.save_note(note("n1", "renamed"));
    assert_eq!(store.get_notes().len(), 2);
    assert_eq!(store.get_notes()[0].title, "renamed");

    store.delete_note(&"n1".to_string());
    assert_eq!(store.get_notes().len(), 1);
    assert_eq!(store.get_notes()[0].id, "n2");
}

#[test]
fn settings_default_when_store_holds_none() {
    let s = get_settings(None);
    assert_eq!(s.left_click_action, LeftClickAction::Todo);
    assert_eq!(s.theme, Theme::Light);
    assert_eq!(s, Settings::default());
}

#[test]
fn settings_stored_value_wins() {
    let stored = Settings { left_click_action: LeftClickAction::Note, theme: Theme::Dark };
    assert_eq!(get_settings(Some(stored)), stored);
}

#[test]
fn notification_state_starts_empty() {
    let state = NotificationState::new();
    assert!(state.notified_todos.is_empty());
}
