//! In-memory model of the persistent store: two independent collections of
//! todo and note records, each keyed by its id.
//!
//! The host's relational store is an external collaborator; the operations
//! here state what each store call must do to the records — atomic upsert
//! by id, atomic delete by id, and the atomic mark-alerted update — so the
//! scheduler and the migration gate can be verified against them.

use vstd::prelude::*;

use crate::models::{Note, Todo};

verus! {

/// No two todo records share an id.
pub open spec fn todo_ids_unique(todos: Seq<Todo>) -> bool {
    forall|i: int, j: int|
        0 <= i < j < todos.len() ==> todos[i].id@ != todos[j].id@
}

/// No two note records share an id.
pub open spec fn note_ids_unique(notes: Seq<Note>) -> bool {
    forall|i: int, j: int|
        0 <= i < j < notes.len() ==> notes[i].id@ != notes[j].id@
}

/// Some todo record carries the given id.
pub open spec fn has_todo(todos: Seq<Todo>, id: Seq<char>) -> bool {
    exists|i: int| 0 <= i < todos.len() && todos[i].id@ == id
}

/// Some note record carries the given id.
pub open spec fn has_note(notes: Seq<Note>, id: Seq<char>) -> bool {
    exists|i: int| 0 <= i < notes.len() && notes[i].id@ == id
}

/// The record an upsert at time `now` actually writes: the caller's record,
/// with `notified` forced back to `false` whenever `remind_time` is unset
/// or still strictly in the future. A delivered alert only stays recorded
/// for a reminder that has already come due.
pub open spec fn written_todo(todo: Todo, now: int) -> Todo {
    if todo.remind_time matches Some(rt) && rt <= now {
        todo
    } else {
        Todo { notified: false, ..todo }
    }
}

/// The same record with `notified` set: what the mark-alerted update writes.
pub open spec fn mark_notified(t: Todo) -> Todo {
    Todo { notified: true, ..t }
}

pub struct Store {
    pub todos: Vec<Todo>,
    pub notes: Vec<Note>,
}

impl Store {
    /// Ids are unique within each collection, as the store's primary keys
    /// guarantee.
    pub open spec fn wf(self) -> bool {
        todo_ids_unique(self.todos@) && note_ids_unique(self.notes@)
    }

    pub fn new() -> (s: Store)
        ensures
            s.todos@.len() == 0,
            s.notes@.len() == 0,
            s.wf(),
    {
        Store { todos: Vec::new(), notes: Vec::new() }
    }

    pub fn get_todos(&self) -> (r: &Vec<Todo>)
        ensures
            r@ == self.todos@,
    {
        &self.todos
    }

    pub fn get_notes(&self) -> (r: &Vec<Note>)
        ensures
            r@ == self.notes@,
    {
        &self.notes
    }

    /// Full upsert of a todo record: replaces the record with the same id,
    /// or appends the record if the id is new. The written record is the
    /// caller's, corrected by the reset rule of `written_todo`: setting a
    /// new future (or no) `remind_time` forces `notified` back to `false`.
    pub fn save_todo(&mut self, todo: Todo, now: i64)
        requires
            old(self).wf(),
        ensures
            final(self).wf(),
            final(self).notes@ == old(self).notes@,
            has_todo(old(self).todos@, todo.id@) ==> {
                &&& final(self).todos@.len() == old(self).todos@.len()
                &&& forall|j: int|
                    0 <= j < old(self).todos@.len() && old(self).todos@[j].id@ != todo.id@
                        ==> final(self).todos@[j] == old(self).todos@[j]
                &&& forall|j: int|
                    0 <= j < old(self).todos@.len() && old(self).todos@[j].id@ == todo.id@
                        ==> final(self).todos@[j] == written_todo(todo, now as int)
            },
            !has_todo(old(self).todos@, todo.id@) ==> final(self).todos@ == old(
                self,
            ).todos@.push(written_todo(todo, now as int)),
    {
        let stored = normalize_on_write(todo, now);
        let n = self.todos.len();
        let mut i: usize = 0;
        while i < n
            invariant
                *self == *old(self),
                old(self).wf(),
                i <= n,
                n == self.todos@.len(),
                stored == written_todo(todo, now as int),
                forall|k: int| 0 <= k < i ==> self.todos@[k].id@ != stored.id@,
            decreases n - i,
        {
            if self.todos[i].id == stored.id {
                self.todos[i] = stored;
                proof {
                    assert(has_todo(old(self).todos@, todo.id@));
                }
                return ;
            }
            i += 1;
        }
        proof {
            assert(!has_todo(old(self).todos@, todo.id@));
        }
        self.todos.push(stored);
    }

    /// Removes the todo record with the given id, if any; every other
    /// record is kept, in order.
    pub fn delete_todo(&mut self, id: &String)
        requires
            old(self).wf(),
        ensures
            final(self).wf(),
            final(self).notes@ == old(self).notes@,
            final(self).todos@ == old(self).todos@.filter(|t: Todo| t.id@ != id@),
    {
        let ghost pred = |t: Todo| t.id@ != id@;
        let mut kept: Vec<Todo> = Vec::new();
        let n = self.todos.len();
        let mut i: usize = 0;
        while i < n
            invariant
                *self == *old(self),
                old(self).wf(),
                i <= n,
                n == self.todos@.len(),
                pred == (|t: Todo| t.id@ != id@),
                kept@ == self.todos@.take(i as int).filter(pred),
                forall|k: int|
                    0 <= k < kept@.len() ==> exists|j: int|
                        0 <= j < i && #[trigger] kept@[k].id@ == #[trigger] self.todos@[j].id@,
            decreases n - i,
        {
            let ghost prefix = self.todos@.take(i as int);
            let ghost next = self.todos@.take(i as int + 1);
            proof {
                reveal(Seq::filter);
                assert(next.drop_last() =~= prefix);
                assert(next.last() == self.todos@[i as int]);
                if pred(self.todos@[i as int]) {
                    assert(next.filter(pred) == prefix.filter(pred).push(self.todos@[i as int]));
                } else {
                    assert(next.filter(pred) == prefix.filter(pred));
                }
            }
            if !(self.todos[i].id == *id) {
                kept.push(self.todos[i].clone());
            }
            i += 1;
        }
        proof {
            assert(self.todos@.take(n as int) =~= self.todos@);
        }
        self.todos = kept;
        proof {
            lemma_filter_keeps_ids_unique(old(self).todos@, pred);
        }
    }

    /// Full upsert of a note record: replaces the record with the same id,
    /// or appends the record if the id is new.
    pub fn save_note(&mut self, note: Note)
        requires
            old(self).wf(),
        ensures
            final(self).wf(),
            final(self).todos@ == old(self).todos@,
            has_note(old(self).notes@, note.id@) ==> {
                &&& final(self).notes@.len() == old(self).notes@.len()
                &&& forall|j: int|
                    0 <= j < old(self).notes@.len() && old(self).notes@[j].id@ != note.id@
                        ==> final(self).notes@[j] == old(self).notes@[j]
                &&& forall|j: int|
                    0 <= j < old(self).notes@.len() && old(self).notes@[j].id@ == note.id@
                        ==> final(self).notes@[j] == note
            },
            !has_note(old(self).notes@, note.id@) ==> final(self).notes@ == old(
                self,
            ).notes@.push(note),
    {
        let n = self.notes.len();
        let mut i: usize = 0;
        while i < n
            invariant
                *self == *old(self),
                old(self).wf(),
                i <= n,
                n == self.notes@.len(),
                forall|k: int| 0 <= k < i ==> self.notes@[k].id@ != note.id@,
            decreases n - i,
        {
            if self.notes[i].id == note.id {
                self.notes[i] = note;
                proof {
                    assert(has_note(old(self).notes@, old(self).notes@[i as int].id@));
                }
                return ;
            }
            i += 1;
        }
        proof {
            assert(!has_note(old(self).notes@, note.id@));
        }
        self.notes.push(note);
    }

    /// Removes the note record with the given id, if any; every other
    /// record is kept, in order.
    pub fn delete_note(&mut self, id: &String)
        requires
            old(self).wf(),
        ensures
            final(self).wf(),
            final(self).todos@ == old(self).todos@,
            final(self).notes@ == old(self).notes@.filter(|n: Note| n.id@ != id@),
    {
        let ghost pred = |n: Note| n.id@ != id@;
        let mut kept: Vec<Note> = Vec::new();
        let n = self.notes.len();
        let mut i: usize = 0;
        while i < n
            invariant
                *self == *old(self),
                old(self).wf(),
                i <= n,
                n == self.notes@.len(),
                pred == (|nt: Note| nt.id@ != id@),
                kept@ == self.notes@.take(i as int).filter(pred),
                forall|k: int|
                    0 <= k < kept@.len() ==> exists|j: int|
                        0 <= j < i && #[trigger] kept@[k].id@ == #[trigger] self.notes@[j].id@,
            decreases n - i,
        {
            let ghost prefix = self.notes@.take(i as int);
            let ghost next = self.notes@.take(i as int + 1);
            proof {
                reveal(Seq::filter);
                assert(next.drop_last() =~= prefix);
                assert(next.last() == self.notes@[i as int]);
                if pred(self.notes@[i as int]) {
                    assert(next.filter(pred) == prefix.filter(pred).push(self.notes@[i as int]));
                } else {
                    assert(next.filter(pred) == prefix.filter(pred));
                }
            }
            if !(self.notes[i].id == *id) {
                kept.push(self.notes[i].clone());
            }
            i += 1;
        }
        proof {
            assert(self.notes@.take(n as int) =~= self.notes@);
        }
        self.notes = kept;
        proof {
            lemma_note_filter_keeps_ids_unique(old(self).notes@, pred);
        }
    }

    /// The atomic mark-alerted update: sets `notified` on the record with
    /// the given id and touches nothing else. Returns whether a record with
    /// that id existed.
    pub fn mark_alerted(&mut self, id: &String) -> (found: bool)
        requires
            old(self).wf(),
        ensures
            final(self).wf(),
            final(self).notes@ == old(self).notes@,
            final(self).todos@.len() == old(self).todos@.len(),
            forall|j: int|
                0 <= j < old(self).todos@.len() && old(self).todos@[j].id@ != id@
                    ==> final(self).todos@[j] == old(self).todos@[j],
            forall|j: int|
                0 <= j < old(self).todos@.len() && old(self).todos@[j].id@ == id@
                    ==> final(self).todos@[j] == mark_notified(old(self).todos@[j]),
            found == has_todo(old(self).todos@, id@),
    {
        let n = self.todos.len();
        let mut i: usize = 0;
        while i < n
            invariant
                *self == *old(self),
                old(self).wf(),
                i <= n,
                n == self.todos@.len(),
                forall|k: int| 0 <= k < i ==> self.todos@[k].id@ != id@,
            decreases n - i,
        {
            if self.todos[i].id == *id {
                let mut t = self.todos[i].clone();
                t.notified = true;
                proof {
                    assert(has_todo(old(self).todos@, old(self).todos@[i as int].id@));
                }
                self.todos[i] = t;
                return true;
            }
            i += 1;
        }
        false
    }
}

/// Filtering a sequence of todos whose ids are unique keeps the ids
/// unique: the result is a subsequence of the original.
proof fn lemma_filter_keeps_ids_unique(todos: Seq<Todo>, pred: spec_fn(Todo) -> bool)
    requires
        todo_ids_unique(todos),
    ensures
        todo_ids_unique(todos.filter(pred)),
        forall|k: int|
            0 <= k < todos.filter(pred).len() ==> exists|j: int|
                0 <= j < todos.len() && todos[j] == #[trigger] todos.filter(pred)[k],
    decreases todos.len(),
{
    reveal(Seq::filter);
    if todos.len() > 0 {
        let prefix = todos.drop_last();
        lemma_filter_keeps_ids_unique(prefix, pred);
        assert forall|k: int|
            0 <= k < todos.filter(pred).len() implies exists|j: int|
            0 <= j < todos.len() && todos[j] == #[trigger] todos.filter(pred)[k] by {
            if k < prefix.filter(pred).len() {
                let j = choose|j: int|
                    0 <= j < prefix.len() && prefix[j] == prefix.filter(pred)[k];
                assert(todos[j] == todos.filter(pred)[k]);
            } else {
                assert(todos[todos.len() - 1] == todos.filter(pred)[k]);
            }
        }
        assert forall|i: int, j: int|
            0 <= i < j < todos.filter(pred).len() implies todos.filter(pred)[i].id@ != todos.filter(
            pred,
        )[j].id@ by {
            if j == todos.filter(pred).len() - 1 && pred(todos.last()) {
                let ji = choose|ji: int|
                    0 <= ji < prefix.len() && prefix[ji] == prefix.filter(pred)[i];
                assert(todos[ji].id@ == todos.filter(pred)[i].id@);
                assert(todos.filter(pred)[j] == todos[todos.len() - 1]);
            }
        }
    }
}

/// The same subsequence fact for notes.
proof fn lemma_note_filter_keeps_ids_unique(notes: Seq<Note>, pred: spec_fn(Note) -> bool)
    requires
        note_ids_unique(notes),
    ensures
        note_ids_unique(notes.filter(pred)),
        forall|k: int|
            0 <= k < notes.filter(pred).len() ==> exists|j: int|
                0 <= j < notes.len() && notes[j] == #[trigger] notes.filter(pred)[k],
    decreases notes.len(),
{
    reveal(Seq::filter);
    if notes.len() > 0 {
        let prefix = notes.drop_last();
        lemma_note_filter_keeps_ids_unique(prefix, pred);
        assert forall|k: int|
            0 <= k < notes.filter(pred).len() implies exists|j: int|
            0 <= j < notes.len() && notes[j] == #[trigger] notes.filter(pred)[k] by {
            if k < prefix.filter(pred).len() {
                let j = choose|j: int|
                    0 <= j < prefix.len() && prefix[j] == prefix.filter(pred)[k];
                assert(notes[j] == notes.filter(pred)[k]);
            } else {
                assert(notes[notes.len() - 1] == notes.filter(pred)[k]);
            }
        }
        assert forall|i: int, j: int|
            0 <= i < j < notes.filter(pred).len() implies notes.filter(pred)[i].id@ != notes.filter(
            pred,
        )[j].id@ by {
            if j == notes.filter(pred).len() - 1 && pred(notes.last()) {
                let ji = choose|ji: int|
                    0 <= ji < prefix.len() && prefix[ji] == prefix.filter(pred)[i];
                assert(notes[ji].id@ == notes.filter(pred)[i].id@);
                assert(notes.filter(pred)[j] == notes[notes.len() - 1]);
            }
        }
    }
}

/// Reset law: an upsert that leaves the reminder unset, or sets it
/// strictly after `now`, writes the record with `notified == false`,
/// whatever the caller's record said — a new future reminder always
/// becomes eligible for one fresh alert.
pub proof fn lemma_upsert_resets_notified(todo: Todo, now: int)
    requires
        todo.remind_time is None || todo.remind_time->0 > now,
    ensures
        written_todo(todo, now) == (Todo { notified: false, ..todo }),
{
}

/// The record invariant every upsert maintains: a written record is only
/// marked alerted when its reminder is set and already due at the moment
/// of the write.
pub proof fn lemma_written_todo_invariant(todo: Todo, now: int)
    ensures
        written_todo(todo, now).notified ==> (todo.remind_time matches Some(rt) && rt <= now),
        written_todo(todo, now).notified ==> todo.notified,
{
}

/// The record an upsert at `now` writes, as executable code; agrees with
/// `written_todo`.
fn normalize_on_write(todo: Todo, now: i64) -> (r: Todo)
    ensures
        r == written_todo(todo, now as int),
{
    let due_already = match todo.remind_time {
        Some(rt) => rt <= now,
        None => false,
    };
    if due_already {
        todo
    } else {
        Todo { notified: false, ..todo }
    }
}

} // verus!
