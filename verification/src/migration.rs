//! The migration gate: the one-time, startup-time import of todo and note
//! records from the legacy JSON document store into the (empty) target
//! store.
//!
//! The host reads and structurally parses the legacy document; this
//! module decides everything else: whether the target is fresh, which records are
//! well-formed enough to carry over, how their RFC 3339 timestamps map to
//! the plain timestamp model, and where a failing insert stops the run.
//! The legacy document itself is never touched, so a failed run can be
//! retried on the next launch.

use vstd::prelude::*;

use crate::models::{Note, Todo};
use crate::rfc3339::{format_rfc3339, parse_rfc3339, rfc3339_parse, rfc3339_text};
use crate::store::{has_note, has_todo, note_ids_unique, todo_ids_unique, Store};

verus! {

/// A structurally parsed element of the legacy document's `todos` array:
/// the fields are present with the right shapes, but the timestamp strings
/// are not yet validated.
#[derive(Debug, Clone)]
pub struct LegacyTodo {
    pub id: String,
    pub title: String,
    pub content: String,
    pub remind_time: Option<String>,
    pub completed: bool,
    pub created_at: String,
    pub notified: bool,
}

/// A structurally parsed element of the legacy document's `notes` array.
#[derive(Debug, Clone)]
pub struct LegacyNote {
    pub id: String,
    pub title: String,
    pub content: String,
    pub created_at: String,
    pub updated_at: String,
}

/// The legacy document: two optional arrays of records. An array element
/// that did not even parse into the record shape is handed over as `None`,
/// so the import can skip it the way it skips a record with a malformed
/// timestamp.
#[derive(Debug, Clone)]
pub struct LegacyDocument {
    pub todos: Vec<Option<LegacyTodo>>,
    pub notes: Vec<Option<LegacyNote>>,
}

/// How a completed gate run ended.
#[derive(Debug, Clone, Copy, PartialEq, Eq, Structural)]
pub enum MigrationOutcome {
    /// The target store already held a todo or a note; nothing was written.
    AlreadyPopulated,
    /// The target store was empty and no legacy document exists; nothing
    /// was written.
    NoLegacyData,
    /// The legacy records were imported; the counts say how many of each.
    Migrated { todos_migrated: usize, notes_migrated: usize },
}

/// Why a gate run failed. Inserts into the fresh store are plain inserts,
/// so the failure the model can show is an id that collides with a record
/// inserted earlier in the same run; the run stops at the first one.
#[derive(Debug, Clone, Copy, PartialEq, Eq, Structural)]
pub enum MigrationError {
    DuplicateTodoId,
    DuplicateNoteId,
}

/// A legacy todo is importable when its timestamps are valid RFC 3339
/// text.
pub open spec fn valid_legacy_todo(t: LegacyTodo) -> bool {
    &&& rfc3339_parse(t.created_at@) is Some
    &&& (t.remind_time matches Some(s) ==> rfc3339_parse(s@) is Some)
}

/// A legacy note is importable when its timestamps are valid RFC 3339
/// text.
pub open spec fn valid_legacy_note(n: LegacyNote) -> bool {
    &&& rfc3339_parse(n.created_at@) is Some
    &&& rfc3339_parse(n.updated_at@) is Some
}

/// The todo record an importable legacy todo becomes: the same fields,
/// with the timestamps in the plain model.
pub open spec fn converted_todo(t: LegacyTodo) -> Todo {
    Todo {
        id: t.id,
        title: t.title,
        content: t.content,
        remind_time: match t.remind_time {
            Some(s) => Some(rfc3339_parse(s@)->0),
            None => None,
        },
        completed: t.completed,
        created_at: rfc3339_parse(t.created_at@)->0,
        notified: t.notified,
    }
}

/// The note record an importable legacy note becomes.
pub open spec fn converted_note(n: LegacyNote) -> Note {
    Note {
        id: n.id,
        title: n.title,
        content: n.content,
        created_at: rfc3339_parse(n.created_at@)->0,
        updated_at: rfc3339_parse(n.updated_at@)->0,
    }
}

/// The todos a gate run tries to insert, in document order: the importable
/// elements, converted; malformed elements are skipped silently.
pub open spec fn converted_todos(list: Seq<Option<LegacyTodo>>) -> Seq<Todo>
    decreases list.len(),
{
    if list.len() == 0 {
        Seq::empty()
    } else {
        let rest = converted_todos(list.drop_last());
        match list.last() {
            Some(t) => if valid_legacy_todo(t) {
                rest.push(converted_todo(t))
            } else {
                rest
            },
            None => rest,
        }
    }
}

/// The notes a gate run tries to insert, in document order.
pub open spec fn converted_notes(list: Seq<Option<LegacyNote>>) -> Seq<Note>
    decreases list.len(),
{
    if list.len() == 0 {
        Seq::empty()
    } else {
        let rest = converted_notes(list.drop_last());
        match list.last() {
            Some(n) => if valid_legacy_note(n) {
                rest.push(converted_note(n))
            } else {
                rest
            },
            None => rest,
        }
    }
}

/// Inserting the record at index `i` fails: an earlier record in the same
/// run already took its id.
pub open spec fn todo_conflict_at(s: Seq<Todo>, i: int) -> bool {
    exists|j: int| 0 <= j < i && s[j].id@ == s[i].id@
}

/// The same insert-conflict notion for notes.
pub open spec fn note_conflict_at(s: Seq<Note>, i: int) -> bool {
    exists|j: int| 0 <= j < i && s[j].id@ == s[i].id@
}

/// `fi` is the first index whose insert fails.
pub open spec fn first_todo_conflict(s: Seq<Todo>, fi: int) -> bool {
    &&& 0 <= fi < s.len()
    &&& todo_conflict_at(s, fi)
    &&& forall|j: int| 0 <= j < fi ==> !todo_conflict_at(s, j)
}

/// The same first-failure notion for notes.
pub open spec fn first_note_conflict(s: Seq<Note>, fi: int) -> bool {
    &&& 0 <= fi < s.len()
    &&& note_conflict_at(s, fi)
    &&& forall|j: int| 0 <= j < fi ==> !note_conflict_at(s, j)
}

/// Everything `migrate_if_empty` does, as a relation between the store
/// before the call, the legacy document, the store after the call, and the
/// result: the run is a no-op on a non-empty store and without a legacy
/// document; otherwise it inserts the converted todos, then the converted
/// notes, stopping at the first id collision (fail-fast, with the earlier
/// inserts of the same run left in place).
pub open spec fn migrate_rel(
    todos0: Seq<Todo>,
    notes0: Seq<Note>,
    legacy: Option<LegacyDocument>,
    todos1: Seq<Todo>,
    notes1: Seq<Note>,
    r: Result<MigrationOutcome, MigrationError>,
) -> bool {
    if todos0.len() > 0 || notes0.len() > 0 {
        &&& r == Ok::<MigrationOutcome, MigrationError>(MigrationOutcome::AlreadyPopulated)
        &&& todos1 == todos0
        &&& notes1 == notes0
    } else {
        match legacy {
            None => {
                &&& r == Ok::<MigrationOutcome, MigrationError>(MigrationOutcome::NoLegacyData)
                &&& todos1 == todos0
                &&& notes1 == notes0
            },
            Some(d) => {
                let ct = converted_todos(d.todos@);
                let cn = converted_notes(d.notes@);
                if !todo_ids_unique(ct) {
                    &&& r == Err::<MigrationOutcome, MigrationError>(
                        MigrationError::DuplicateTodoId,
                    )
                    &&& exists|fi: int|
                        #[trigger] first_todo_conflict(ct, fi) && todos1 == ct.take(fi)
                    &&& notes1 == notes0
                } else if !note_ids_unique(cn) {
                    &&& r == Err::<MigrationOutcome, MigrationError>(
                        MigrationError::DuplicateNoteId,
                    )
                    &&& todos1 == ct
                    &&& exists|fi: int|
                        #[trigger] first_note_conflict(cn, fi) && notes1 == cn.take(fi)
                } else {
                    &&& r == Ok::<MigrationOutcome, MigrationError>(
                        MigrationOutcome::Migrated {
                            todos_migrated: ct.len() as usize,
                            notes_migrated: cn.len() as usize,
                        },
                    )
                    &&& todos1 == ct
                    &&& notes1 == cn
                }
            },
        }
    }
}

/// Validates a structurally parsed legacy todo and converts it into the
/// plain model; `None` exactly when one of its timestamps is not valid
/// RFC 3339 text (the record is then skipped).
pub fn convert_legacy_todo(lt: &LegacyTodo) -> (r: Option<Todo>)
    ensures
        r matches Some(t) ==> valid_legacy_todo(*lt) && t == converted_todo(*lt),
        r is None ==> !valid_legacy_todo(*lt),
{
    let created = match parse_rfc3339(lt.created_at.as_str()) {
        Some(c) => c,
        None => {
            return None;
        },
    };
    let remind: Option<i64> = match &lt.remind_time {
        Some(s) => match parse_rfc3339(s.as_str()) {
            Some(v) => Some(v),
            None => {
                return None;
            },
        },
        None => None,
    };
    Some(
        Todo {
            id: lt.id.clone(),
            title: lt.title.clone(),
            content: lt.content.clone(),
            remind_time: remind,
            completed: lt.completed,
            created_at: created,
            notified: lt.notified,
        },
    )
}

/// Validates a structurally parsed legacy note and converts it into the
/// plain model; `None` exactly when a timestamp is malformed.
pub fn convert_legacy_note(ln: &LegacyNote) -> (r: Option<Note>)
    ensures
        r matches Some(n) ==> valid_legacy_note(*ln) && n == converted_note(*ln),
        r is None ==> !valid_legacy_note(*ln),
{
    let created = match parse_rfc3339(ln.created_at.as_str()) {
        Some(c) => c,
        None => {
            return None;
        },
    };
    let updated = match parse_rfc3339(ln.updated_at.as_str()) {
        Some(u) => u,
        None => {
            return None;
        },
    };
    Some(
        Note {
            id: ln.id.clone(),
            title: ln.title.clone(),
            content: ln.content.clone(),
            created_at: created,
            updated_at: updated,
        },
    )
}

/// Whether some todo record already carries the id: the membership test a
/// plain insert's primary key performs.
fn contains_todo_id(todos: &Vec<Todo>, id: &String) -> (found: bool)
    ensures
        found == has_todo(todos@, id@),
{
    let mut i: usize = 0;
    while i < todos.len()
        invariant
            i <= todos@.len(),
            forall|k: int| 0 <= k < i ==> todos@[k].id@ != id@,
        decreases todos@.len() - i,
    {
        if todos[i].id == *id {
            return true;
        }
        i += 1;
    }
    false
}

/// The same membership test for notes.
fn contains_note_id(notes: &Vec<Note>, id: &String) -> (found: bool)
    ensures
        found == has_note(notes@, id@),
{
    let mut i: usize = 0;
    while i < notes.len()
        invariant
            i <= notes@.len(),
            forall|k: int| 0 <= k < i ==> notes@[k].id@ != id@,
        decreases notes@.len() - i,
    {
        if notes[i].id == *id {
            return true;
        }
        i += 1;
    }
    false
}

/// The converted prefix of a longer document prefix extends the shorter
/// one: `converted_todos` of a prefix is a prefix of `converted_todos`.
proof fn lemma_converted_todos_prefix(list: Seq<Option<LegacyTodo>>, i: int)
    requires
        0 <= i <= list.len(),
    ensures
        converted_todos(list.take(i)).len() <= converted_todos(list).len(),
        converted_todos(list).take(converted_todos(list.take(i)).len() as int) == converted_todos(
            list.take(i),
        ),
    decreases list.len() - i,
{
    let a = converted_todos(list.take(i));
    if i == list.len() {
        assert(list.take(i) =~= list);
        assert(converted_todos(list).take(a.len() as int) =~= a);
    } else {
        lemma_converted_todos_prefix(list, i + 1);
        let b = converted_todos(list.take(i + 1));
        assert(list.take(i + 1).drop_last() =~= list.take(i));
        assert(list.take(i + 1).last() == list[i]);
        assert(converted_todos(list).take(b.len() as int) == b);
        assert(converted_todos(list).take(a.len() as int) =~= a);
    }
}

/// The same prefix fact for notes.
proof fn lemma_converted_notes_prefix(list: Seq<Option<LegacyNote>>, i: int)
    requires
        0 <= i <= list.len(),
    ensures
        converted_notes(list.take(i)).len() <= converted_notes(list).len(),
        converted_notes(list).take(converted_notes(list.take(i)).len() as int) == converted_notes(
            list.take(i),
        ),
    decreases list.len() - i,
{
    let a = converted_notes(list.take(i));
    if i == list.len() {
        assert(list.take(i) =~= list);
        assert(converted_notes(list).take(a.len() as int) =~= a);
    } else {
        lemma_converted_notes_prefix(list, i + 1);
        let b = converted_notes(list.take(i + 1));
        assert(list.take(i + 1).drop_last() =~= list.take(i));
        assert(list.take(i + 1).last() == list[i]);
        assert(converted_notes(list).take(b.len() as int) == b);
        assert(converted_notes(list).take(a.len() as int) =~= a);
    }
}

/// The one-time migration gate.
///
/// Runs once at startup, before anything else touches the target store.
/// A target store that already holds any todo or note is left untouched
/// (`AlreadyPopulated`); so is an empty one when no legacy document exists
/// (`NoLegacyData`). Otherwise every importable legacy record is inserted
/// with a plain insert, todos first, and the run stops at the first insert
/// failure, leaving the records inserted so far in place. `migrate_rel`
/// states the whole behaviour.
pub fn migrate_if_empty(store: &mut Store, legacy: Option<&LegacyDocument>) -> (r: Result<
    MigrationOutcome,
    MigrationError,
>)
    requires
        old(store).wf(),
    ensures
        final(store).wf(),
        migrate_rel(
            old(store).todos@,
            old(store).notes@,
            match legacy {
                Some(d) => Some(*d),
                None => None,
            },
            final(store).todos@,
            final(store).notes@,
            r,
        ),
{
    if store.todos.len() > 0 || store.notes.len() > 0 {
        return Ok(MigrationOutcome::AlreadyPopulated);
    }
    let doc = match legacy {
        Some(d) => d,
        None => {
            return Ok(MigrationOutcome::NoLegacyData);
        },
    };
    let ghost ct = converted_todos(doc.todos@);
    let ghost cn = converted_notes(doc.notes@);

    let n_todos = doc.todos.len();
    let mut i: usize = 0;
    while i < n_todos
        invariant
            store.wf(),
            i <= n_todos,
            n_todos == doc.todos@.len(),
            ct == converted_todos(doc.todos@),
            legacy == Some(doc),
            old(store).todos@.len() == 0,
            old(store).notes@.len() == 0,
            store.notes@ == old(store).notes@,
            store.todos@ == converted_todos(doc.todos@.take(i as int)),
        decreases n_todos - i,
    {
        let ghost prefix = doc.todos@.take(i as int);
        let ghost next = doc.todos@.take(i as int + 1);
        proof {
            assert(next.drop_last() =~= prefix);
            assert(next.last() == doc.todos@[i as int]);
        }
        match &doc.todos[i] {
            Some(lt) => {
                match convert_legacy_todo(lt) {
                    Some(todo) => {
                        if contains_todo_id(&store.todos, &todo.id) {
                            proof {
                                lemma_converted_todos_prefix(doc.todos@, i as int);
                                let fi = store.todos@.len() as int;
                                assert(converted_todos(next) == converted_todos(prefix).push(
                                    converted_todo(*lt),
                                ));
                                lemma_converted_todos_prefix(doc.todos@, i as int + 1);
                                assert(ct.take(fi + 1) == converted_todos(next));
                                assert(ct[fi] == converted_todos(next)[fi]);
                                assert(ct[fi] == converted_todo(*lt));
                                assert(ct.take(fi) == converted_todos(prefix));
                                assert forall|j: int| 0 <= j < fi implies ct[j]
                                    == store.todos@[j] by {
                                    assert(ct.take(fi)[j] == ct[j]);
                                }
                                assert(todo_conflict_at(ct, fi));
                                assert forall|j: int| 0 <= j < fi implies !todo_conflict_at(
                                    ct,
                                    j,
                                ) by {
                                    assert(forall|j2: int|
                                        0 <= j2 < fi ==> ct[j2] == store.todos@[j2]);
                                }
                                assert(first_todo_conflict(ct, fi));
                                assert(!todo_ids_unique(ct)) by {
                                    let jw = choose|j: int|
                                        0 <= j < fi && ct[j].id@ == ct[fi].id@;
                                    assert(ct[jw].id@ == ct[fi].id@);
                                }
                                assert(store.todos@ == ct.take(fi));
                            }
                            return Err(MigrationError::DuplicateTodoId);
                        }
                        store.todos.push(todo);
                    },
                    None => {},
                }
            },
            None => {},
        }
        i += 1;
    }
    proof {
        assert(doc.todos@.take(n_todos as int) =~= doc.todos@);
    }

    let n_notes = doc.notes.len();
    let mut k: usize = 0;
    while k < n_notes
        invariant
            store.wf(),
            k <= n_notes,
            n_notes == doc.notes@.len(),
            ct == converted_todos(doc.todos@),
            cn == converted_notes(doc.notes@),
            legacy == Some(doc),
            old(store).todos@.len() == 0,
            old(store).notes@.len() == 0,
            store.todos@ == ct,
            store.notes@ == converted_notes(doc.notes@.take(k as int)),
        decreases n_notes - k,
    {
        let ghost prefix = doc.notes@.take(k as int);
        let ghost next = doc.notes@.take(k as int + 1);
        proof {
            assert(next.drop_last() =~= prefix);
            assert(next.last() == doc.notes@[k as int]);
        }
        match &doc.notes[k] {
            Some(ln) => {
                match convert_legacy_note(ln) {
                    Some(note) => {
                        if contains_note_id(&store.notes, &note.id) {
                            proof {
                                lemma_converted_notes_prefix(doc.notes@, k as int);
                                let fi = store.notes@.len() as int;
                                assert(converted_notes(next) == converted_notes(prefix).push(
                                    converted_note(*ln),
                                ));
                                lemma_converted_notes_prefix(doc.notes@, k as int + 1);
                                assert(cn.take(fi + 1) == converted_notes(next));
                                assert(cn[fi] == converted_notes(next)[fi]);
                                assert(cn[fi] == converted_note(*ln));
                                assert(cn.take(fi) == converted_notes(prefix));
                                assert forall|j: int| 0 <= j < fi implies cn[j]
                                    == store.notes@[j] by {
                                    assert(cn.take(fi)[j] == cn[j]);
                                }
                                assert(note_conflict_at(cn, fi));
                                assert forall|j: int| 0 <= j < fi implies !note_conflict_at(
                                    cn,
                                    j,
                                ) by {
                                    assert(forall|j2: int|
                                        0 <= j2 < fi ==> cn[j2] == store.notes@[j2]);
                                }
                                assert(first_note_conflict(cn, fi));
                                assert(!note_ids_unique(cn)) by {
                                    let jw = choose|j: int|
                                        0 <= j < fi && cn[j].id@ == cn[fi].id@;
                                    assert(cn[jw].id@ == cn[fi].id@);
                                }
                                assert(store.notes@ == cn.take(fi));
                            }
                            return Err(MigrationError::DuplicateNoteId);
                        }
                        store.notes.push(note);
                    },
                    None => {},
                }
            },
            None => {},
        }
        k += 1;
    }
    proof {
        assert(doc.notes@.take(n_notes as int) =~= doc.notes@);
    }

    Ok(
        MigrationOutcome::Migrated {
            todos_migrated: store.todos.len(),
            notes_migrated: store.notes.len(),
        },
    )
}

/// A todo record in the relational store's wire form: the target store
/// represents timestamps as text, so both are serialized to canonical
/// RFC 3339 form before insertion.
#[derive(Debug, Clone)]
pub struct TodoRow {
    pub id: String,
    pub title: String,
    pub content: String,
    pub remind_time: Option<String>,
    pub completed: bool,
    pub created_at: String,
    pub notified: bool,
}

/// A note record in the relational store's wire form.
#[derive(Debug, Clone)]
pub struct NoteRow {
    pub id: String,
    pub title: String,
    pub content: String,
    pub created_at: String,
    pub updated_at: String,
}

/// Serializes a todo record for insertion into the relational store:
/// every field as it stands, timestamps as canonical RFC 3339 text.
pub fn todo_row(t: &Todo) -> (r: TodoRow)
    ensures
        r.id@ == t.id@,
        r.title@ == t.title@,
        r.content@ == t.content@,
        r.completed == t.completed,
        r.notified == t.notified,
        r.created_at@ == rfc3339_text(t.created_at),
        match t.remind_time {
            Some(rt) => r.remind_time matches Some(s) && s@ == rfc3339_text(rt),
            None => r.remind_time is None,
        },
{
    TodoRow {
        id: t.id.clone(),
        title: t.title.clone(),
        content: t.content.clone(),
        remind_time: match &t.remind_time {
            Some(rt) => Some(format_rfc3339(*rt)),
            None => None,
        },
        completed: t.completed,
        created_at: format_rfc3339(t.created_at),
        notified: t.notified,
    }
}

/// Serializes a note record for insertion into the relational store.
pub fn note_row(n: &Note) -> (r: NoteRow)
    ensures
        r.id@ == n.id@,
        r.title@ == n.title@,
        r.content@ == n.content@,
        r.created_at@ == rfc3339_text(n.created_at),
        r.updated_at@ == rfc3339_text(n.updated_at),
{
    NoteRow {
        id: n.id.clone(),
        title: n.title.clone(),
        content: n.content.clone(),
        created_at: format_rfc3339(n.created_at),
        updated_at: format_rfc3339(n.updated_at),
    }
}

/// The migration gate is idempotent: whatever store a successful first run
/// left behind, a second run with the same legacy document writes nothing.
/// (Success is what the guard can rely on; after a *failed* partial run
/// the partially filled store is indistinguishable from a populated one —
/// the known re-entrancy gap of inferring "already migrated" from
/// "non-empty".)
pub proof fn lemma_migrate_idempotent(
    legacy: Option<LegacyDocument>,
    todos1: Seq<Todo>,
    notes1: Seq<Note>,
    r1: Result<MigrationOutcome, MigrationError>,
    todos2: Seq<Todo>,
    notes2: Seq<Note>,
    r2: Result<MigrationOutcome, MigrationError>,
)
    requires
        migrate_rel(Seq::empty(), Seq::empty(), legacy, todos1, notes1, r1),
        r1 is Ok,
        migrate_rel(todos1, notes1, legacy, todos2, notes2, r2),
    ensures
        todos2 == todos1,
        notes2 == notes1,
        r2 is Ok,
{
}

} // verus!
