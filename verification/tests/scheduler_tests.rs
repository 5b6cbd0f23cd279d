use silto::models::Todo;
use silto::scheduler::{sweep, SWEEP_BATCH_CAP, TICK_SECONDS};
use silto::store::Store;

fn todo(id: &str, title: &str, content: &str, remind_time: Option<i64>, completed: bool) -> Todo {
    Todo {
        id: id.to_string(),
        title: title.to_string(),
        content: content.to_string(),
        remind_time,
        completed,
        created_at: 0,
        notified: false,
    }
}

const NOW: i64 = 1_700_000_000;

#[test]
fn sweep_delivers_once_and_marks_alerted() {
    // One todo due an hour ago: one sweep delivers exactly one notification
    // whose body carries the title and content, and the store shows the
    // record as alerted.
    let mut store = Store::new();
    store.save_todo(todo("t1", "Water plants", "kitchen and balcony", Some(NOW - 3600), false), NOW);

    let alerts = sweep(&mut store, NOW);

    assert_eq!(alerts.len(), 1);
    assert_eq!(alerts[0].todo_id, "t1");
    assert_eq!(alerts[0].title, "Todo 提醒");
    assert_eq!(alerts[0].body, "Water plants: kitchen and balcony");
    assert!(store.get_todos()[0].notified);
}

#[test]
fn swept_id_excluded_from_every_later_sweep() {
    let mut store = Store::new();
    store.save_todo(todo("t1", "a", "b", Some(NOW - 10), false), NOW);

    let first = sweep(&mut store, NOW);
    assert_eq!(first.len(), 1);

    let second = sweep(&mut store, NOW + TICK_SECONDS as i64);
    assert_eq!(second.len(), 0);
    let third = sweep(&mut store, NOW + 1_000_000);
    assert_eq!(third.len(), 0);
}

#[test]
fn future_unset_completed_or_alerted_never_selected() {
    let mut store = Store::new();
    store.save_todo(todo("future", "a", "b", Some(NOW + 1), false), NOW);
    store.save_todo(todo("unset", "a", "b", None, false), NOW);
    store.save_todo(todo("done", "a", "b", Some(NOW - 5), true), NOW);
    // already alerted for a due reminder: notified stays true through the
    // upsert because the reminder is already due
    let mut alerted = todo("alerted", "a", "b", Some(NOW - 5), false);
    alerted.notified = true;
    store.save_todo(alerted, NOW);

    let alerts = sweep(&mut store, NOW);
    assert_eq!(alerts.len(), 0);
    assert!(!store.get_todos()[0].notified);
    assert!(!store.get_todos()[1].notified);
    assert!(!store.get_todos()[2].notified);
}

#[test]
fn exactly_at_now_is_due() {
    let mut store = Store::new();
    store.save_todo(todo("t1", "a", "b", Some(NOW), false), NOW);
    let alerts = sweep(&mut store, NOW);
    assert_eq!(alerts.len(), 1);
}

#[test]
fn batch_cap_first_hundred_then_rest() {
    // 150 eligible todos: one sweep alerts at most the cap, in store
    // order; the next sweep picks up the remaining 50.
    let mut store = Store::new();
    for i in 0..150 {
        let id = format!("t{:03}", i);
        store.save_todo(todo(&id, "n", "c", Some(NOW - 1000 + i as i64), false), NOW);
    }

    let first = sweep(&mut store, NOW);
    assert_eq!(first.len(), SWEEP_BATCH_CAP);
    assert_eq!(first[0].todo_id, "t000");
    assert_eq!(first[99].todo_id, "t099");
    let marked = store.get_todos().iter().filter(|t| t.notified).count();
    assert_eq!(marked, 100);

    let second = sweep(&mut store, NOW + 60);
    assert_eq!(second.len(), 50);
    assert_eq!(second[0].todo_id, "t100");
    assert_eq!(second[49].todo_id, "t149");
    assert!(store.get_todos().iter().all(|t| t.notified));

    let third = sweep(&mut store, NOW + 120);
    assert_eq!(third.len(), 0);
}

#[test]
fn sweep_leaves_unrelated_fields_and_notes_alone() {
    let mut store = Store::new();
    store.save_todo(todo("t1", "title", "content", Some(NOW - 1), false), NOW);
    let before_created = store.get_todos()[0].created_at;

    let alerts = sweep(&mut store, NOW);
    assert_eq!(alerts.len(), 1);
    let t = &store.get_todos()[0];
    assert_eq!(t.id, "t1");
    assert_eq!(t.title, "title");
    assert_eq!(t.content, "content");
    assert_eq!(t.remind_time, Some(NOW - 1));
    assert_eq!(t.created_at, before_created);
    assert!(!t.completed);
    assert!(t.notified);
}
