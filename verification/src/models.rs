//! Data model: todo and note records, the singleton settings record, and
//! the per-process notification bookkeeping state.
//!
//! Timestamps are plain UTC values, counted in whole seconds since the Unix
//! epoch; the textual RFC 3339 form only appears at the storage boundary
//! (see `rfc3339` and `migration`).

use vstd::prelude::*;

verus! {

/// A todo record.
///
/// `notified` records whether an alert has already been delivered for the
/// current `remind_time`; the reminder sweep is the only writer that flips
/// it from `false` to `true`, and the upsert path resets it to `false`
/// whenever `remind_time` is unset or still in the future.
#[derive(Debug)]
pub struct Todo {
    pub id: String,
    pub title: String,
    pub content: String,
    pub remind_time: Option<i64>,
    pub completed: bool,
    pub created_at: i64,
    pub notified: bool,
}

impl Clone for Todo {
    fn clone(&self) -> (res: Self)
        ensures
            res == *self,
    {
        Todo {
            id: self.id.clone(),
            title: self.title.clone(),
            content: self.content.clone(),
            remind_time: self.remind_time,
            completed: self.completed,
            created_at: self.created_at,
            notified: self.notified,
        }
    }
}

/// A note record. Notes have no scheduling relevance; they share the store
/// and the migration path only.
#[derive(Debug)]
pub struct Note {
    pub id: String,
    pub title: String,
    pub content: String,
    pub created_at: i64,
    pub updated_at: i64,
}

impl Clone for Note {
    fn clone(&self) -> (res: Self)
        ensures
            res == *self,
    {
        Note {
            id: self.id.clone(),
            title: self.title.clone(),
            content: self.content.clone(),
            created_at: self.created_at,
            updated_at: self.updated_at,
        }
    }
}

/// What a left click on the tray icon opens.
#[derive(Debug, Clone, Copy, PartialEq, Eq, Structural)]
pub enum LeftClickAction {
    Todo,
    Note,
}

/// The colour theme of the host application's windows.
#[derive(Debug, Clone, Copy, PartialEq, Eq, Structural)]
pub enum Theme {
    Light,
    Dark,
}

/// The singleton configuration record.
#[derive(Debug, Clone, Copy, PartialEq, Eq, Structural)]
pub struct Settings {
    pub left_click_action: LeftClickAction,
    pub theme: Theme,
}

impl Default for Settings {
    fn default() -> (s: Self)
        ensures
            s == (Settings { left_click_action: LeftClickAction::Todo, theme: Theme::Light }),
    {
        Settings { left_click_action: LeftClickAction::Todo, theme: Theme::Light }
    }
}

/// Returns the stored settings where the store held any, and the default
/// configuration otherwise.
pub fn get_settings(stored: Option<Settings>) -> (s: Settings)
    ensures
        match stored {
            Some(v) => s == v,
            None => s == (Settings {
                left_click_action: LeftClickAction::Todo,
                theme: Theme::Light,
            }),
        },
{
    match stored {
        Some(v) => v,
        None => Settings::default(),
    }
}

/// In-memory record of the todo ids alerted during the current process
/// lifetime, kept for observability only: deduplication across restarts
/// rests on the persisted `notified` flag, not on this list.
#[derive(Debug)]
pub struct NotificationState {
    pub notified_todos: Vec<String>,
}

impl NotificationState {
    pub fn new() -> (s: Self)
        ensures
            s.notified_todos@.len() == 0,
    {
        NotificationState { notified_todos: Vec::new() }
    }
}

} // verus!
