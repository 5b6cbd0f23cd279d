//! The reminder sweep: the scan-and-alert cycle that the host runs once
//! per tick for the lifetime of the process.
//!
//! One sweep takes a single time reference `now`, selects the due, active,
//! not-yet-alerted todos in store order up to a fixed batch cap, composes
//! one notification per selected todo, and durably marks each selected
//! todo as alerted so no later sweep ever picks it up again.

use vstd::prelude::*;

use crate::models::Todo;
use crate::store::{mark_notified, todo_ids_unique, Store};

verus! {

/// Upper bound on the todos one sweep may alert; the remainder of a larger
/// backlog is picked up on subsequent sweeps.
pub const SWEEP_BATCH_CAP: usize = 100;

/// Seconds the host loop sleeps between two sweeps.
pub const TICK_SECONDS: u64 = 60;

/// A due-unalerted todo at time `now`: not completed, not yet alerted, and
/// its reminder time has passed.
pub open spec fn due_unalerted(t: Todo, now: int) -> bool {
    &&& !t.completed
    &&& !t.notified
    &&& t.remind_time matches Some(rt) && rt <= now
}

/// How many records of `todos` are due-unalerted at `now`.
pub open spec fn due_count(todos: Seq<Todo>, now: int) -> int
    decreases todos.len(),
{
    if todos.len() == 0 {
        0
    } else {
        due_count(todos.drop_last(), now) + if due_unalerted(todos.last(), now) {
            1int
        } else {
            0int
        }
    }
}

/// Whether a sweep at `now` selects the record at index `k`: it is
/// due-unalerted, and fewer than the batch cap of due-unalerted records
/// precede it in store order.
pub open spec fn sweep_selects(todos: Seq<Todo>, now: int, k: int) -> bool {
    &&& 0 <= k < todos.len()
    &&& due_unalerted(todos[k], now)
    &&& due_count(todos.take(k), now) < SWEEP_BATCH_CAP as int
}

/// The todo collection after one sweep at `now`: every selected record is
/// marked alerted, every other record is untouched.
pub open spec fn after_sweep(todos: Seq<Todo>, now: int) -> Seq<Todo> {
    Seq::new(
        todos.len(),
        |k: int|
            if sweep_selects(todos, now, k) {
                mark_notified(todos[k])
            } else {
                todos[k]
            },
    )
}

/// How many alerts one sweep at `now` delivers: every due-unalerted record,
/// capped at the batch bound.
pub open spec fn alert_total(todos: Seq<Todo>, now: int) -> int {
    if due_count(todos, now) <= SWEEP_BATCH_CAP as int {
        due_count(todos, now)
    } else {
        SWEEP_BATCH_CAP as int
    }
}

/// A notification request handed to the host's notifier: fire-and-forget
/// delivery of `title` and `body`, traced back to the todo by `todo_id`.
#[derive(Debug)]
pub struct Notification {
    pub todo_id: String,
    pub title: String,
    pub body: String,
}

/// The fixed label every reminder notification carries as its title.
pub open spec fn reminder_title() -> Seq<char> {
    "Todo 提醒"@
}

/// The notification `n` is the one alert owed for todo `t`: it names the
/// todo, carries the fixed reminder title, and its body is composed from
/// the todo's title and content.
pub open spec fn notifies(n: Notification, t: Todo) -> bool {
    &&& n.todo_id@ == t.id@
    &&& n.title@ == reminder_title()
    &&& n.body@ == t.title@ + ": "@ + t.content@
}

/// One step of `due_count` along store order.
proof fn lemma_due_count_step(todos: Seq<Todo>, now: int, j: int)
    requires
        0 <= j < todos.len(),
    ensures
        due_count(todos.take(j + 1), now) == due_count(todos.take(j), now) + if due_unalerted(
            todos[j],
            now,
        ) {
            1int
        } else {
            0int
        },
{
    assert(todos.take(j + 1).drop_last() =~= todos.take(j));
    assert(todos.take(j + 1).last() == todos[j]);
}

/// `due_count` over a longer prefix never shrinks.
proof fn lemma_due_count_monotone(todos: Seq<Todo>, now: int, a: int, b: int)
    requires
        0 <= a <= b <= todos.len(),
    ensures
        due_count(todos.take(a), now) <= due_count(todos.take(b), now),
    decreases b - a,
{
    if a < b {
        lemma_due_count_monotone(todos, now, a, b - 1);
        lemma_due_count_step(todos, now, b - 1);
    }
}

/// One sweep of the store at time `now`.
///
/// Selects the due-unalerted todos in store order, up to the batch cap;
/// returns one notification request per selected todo, in selection order;
/// and marks exactly the selected todos as alerted. Notes and unselected
/// todos are untouched.
pub fn sweep(store: &mut Store, now: i64) -> (alerts: Vec<Notification>)
    requires
        old(store).wf(),
    ensures
        final(store).wf(),
        final(store).notes@ == old(store).notes@,
        final(store).todos@ == after_sweep(old(store).todos@, now as int),
        alerts@.len() == alert_total(old(store).todos@, now as int),
        forall|k: int|
            #[trigger] sweep_selects(old(store).todos@, now as int, k) ==> notifies(
                alerts@[due_count(old(store).todos@.take(k), now as int)],
                old(store).todos@[k],
            ),
{
    let ghost orig = old(store).todos@;
    let n = store.todos.len();
    let mut alerts: Vec<Notification> = Vec::new();
    let mut j: usize = 0;
    while j < n
        invariant
            old(store).wf(),
            store.notes@ == old(store).notes@,
            orig == old(store).todos@,
            n == store.todos@.len(),
            n == orig.len(),
            j <= n,
            alerts@.len() <= SWEEP_BATCH_CAP,
            forall|k: int|
                0 <= k < j ==> store.todos@[k] == if sweep_selects(orig, now as int, k) {
                    mark_notified(orig[k])
                } else {
                    orig[k]
                },
            forall|k: int| j <= k < n ==> store.todos@[k] == orig[k],
            alerts@.len() == alert_total(orig.take(j as int), now as int),
            forall|k: int|
                0 <= k < j && #[trigger] sweep_selects(orig, now as int, k) ==> notifies(
                    alerts@[due_count(orig.take(k), now as int)],
                    orig[k],
                ),
        decreases n - j,
    {
        proof {
            lemma_due_count_step(orig, now as int, j as int);
        }
        let is_due = {
            let t = &store.todos[j];
            match t.remind_time {
                Some(rt) => !t.completed && !t.notified && rt <= now,
                None => false,
            }
        };
        if is_due && alerts.len() < SWEEP_BATCH_CAP {
            proof {
                assert(sweep_selects(orig, now as int, j as int));
            }
            let mut body = store.todos[j].title.clone();
            body.append(": ");
            body.append(store.todos[j].content.as_str());
            let notif = Notification {
                todo_id: store.todos[j].id.clone(),
                title: "Todo 提醒".to_string(),
                body,
            };
            proof {
                assert(notifies(notif, orig[j as int]));
                assert(alerts@.len() == due_count(orig.take(j as int), now as int));
                assert forall|k: int|
                    0 <= k < j && #[trigger] sweep_selects(orig, now as int, k) implies 0
                    <= due_count(orig.take(k), now as int) < alerts@.len() by {
                    lemma_due_count_nonnegative(orig.take(k), now as int);
                    lemma_due_count_step(orig, now as int, k);
                    lemma_due_count_monotone(orig, now as int, k + 1, j as int);
                }
            }
            alerts.push(notif);
            let mut marked = store.todos[j].clone();
            marked.notified = true;
            store.todos[j] = marked;
        }
        j += 1;
    }
    proof {
        assert(orig.take(n as int) =~= orig);
        assert(store.todos@ =~= after_sweep(orig, now as int));
        assert forall|i: int, k: int|
            0 <= i < k < store.todos@.len() implies store.todos@[i].id@ != store.todos@[k].id@ by {
            assert(store.todos@[i].id@ == orig[i].id@);
            assert(store.todos@[k].id@ == orig[k].id@);
        }
    }
    alerts
}

/// A sweep never selects a completed todo, an already-alerted todo, or one
/// whose reminder is unset or still strictly in the future.
pub proof fn lemma_never_selected(todos: Seq<Todo>, now: int, k: int)
    requires
        0 <= k < todos.len(),
        todos[k].completed || todos[k].notified || todos[k].remind_time is None || (
        todos[k].remind_time matches Some(rt) && rt > now),
    ensures
        !sweep_selects(todos, now, k),
{
}

/// Once a sweep has selected a todo, the todo it wrote is excluded from
/// every subsequent sweep's selection, whatever time that sweep runs at:
/// its id is never alerted again until a new reminder time resets it.
pub proof fn lemma_no_realert(todos: Seq<Todo>, now: int, now2: int, k: int)
    requires
        todo_ids_unique(todos),
        sweep_selects(todos, now, k),
    ensures
        forall|k2: int|
            0 <= k2 < after_sweep(todos, now).len() && after_sweep(todos, now)[k2].id@ == todos[k].id@
                ==> !sweep_selects(after_sweep(todos, now), now2, k2),
{
    let swept = after_sweep(todos, now);
    assert forall|k2: int|
        0 <= k2 < swept.len() && swept[k2].id@ == todos[k].id@ implies !sweep_selects(
        swept,
        now2,
        k2,
    ) by {
        assert(swept[k2].id@ == todos[k2].id@);
        assert(k2 == k);
        assert(swept[k].notified);
    }
}

/// A sweep never touches an already-alerted record, so the alerted flag
/// survives every later sweep: only an upsert with a new future reminder
/// resets it. Together with `lemma_no_realert` this excludes a swept id
/// from every subsequent sweep, not just the next one.
pub proof fn lemma_sweep_preserves_alerted(todos: Seq<Todo>, now: int, k: int)
    requires
        0 <= k < todos.len(),
        todos[k].notified,
    ensures
        after_sweep(todos, now)[k] == todos[k],
{
}

/// Every due-unalerted todo is selected whenever the backlog fits within
/// the batch cap; together with the distinct alert positions below, a sweep
/// delivers exactly one notification per due-unalerted todo.
pub proof fn lemma_all_due_selected_under_cap(todos: Seq<Todo>, now: int, k: int)
    requires
        due_count(todos, now) <= SWEEP_BATCH_CAP as int,
        0 <= k < todos.len(),
        due_unalerted(todos[k], now),
    ensures
        sweep_selects(todos, now, k),
{
    lemma_due_count_step(todos, now, k);
    lemma_due_count_monotone(todos, now, k + 1, todos.len() as int);
    assert(todos.take(todos.len() as int) =~= todos);
}

/// Distinct selected todos own distinct alert positions, each below the
/// number of alerts the sweep returns.
pub proof fn lemma_one_alert_per_todo(todos: Seq<Todo>, now: int, k1: int, k2: int)
    requires
        sweep_selects(todos, now, k1),
        sweep_selects(todos, now, k2),
        k1 < k2,
    ensures
        0 <= due_count(todos.take(k1), now),
        due_count(todos.take(k1), now) < due_count(todos.take(k2), now),
        due_count(todos.take(k2), now) < alert_total(todos, now),
{
    lemma_due_count_nonnegative(todos.take(k1), now);
    lemma_due_count_step(todos, now, k1);
    lemma_due_count_monotone(todos, now, k1 + 1, k2);
    lemma_due_count_step(todos, now, k2);
    lemma_due_count_monotone(todos, now, k2 + 1, todos.len() as int);
    assert(todos.take(todos.len() as int) =~= todos);
}

/// One sweep drains the backlog by exactly the number of alerts it
/// delivered: at any later time, the due-unalerted count of the swept
/// collection is what it would have been without the sweep, less the
/// alerts the sweep delivered. In particular a backlog larger than the
/// batch cap is worked off cap-many todos per sweep.
pub proof fn lemma_backlog_drains(todos: Seq<Todo>, now: int, now2: int)
    requires
        now <= now2,
    ensures
        due_count(after_sweep(todos, now), now2) == due_count(todos, now2) - alert_total(
            todos,
            now,
        ),
    decreases todos.len(),
{
    lemma_due_count_nonnegative(todos, now);
    if todos.len() == 0 {
        assert(after_sweep(todos, now) =~= Seq::<Todo>::empty());
    } else {
        let prefix = todos.drop_last();
        let last = todos.last();
        let swept = after_sweep(todos, now);
        lemma_backlog_drains(prefix, now, now2);
        lemma_due_count_nonnegative(prefix, now);
        assert forall|k: int|
            0 <= k < prefix.len() implies sweep_selects(todos, now, k) == sweep_selects(
            prefix,
            now,
            k,
        ) by {
            assert(todos.take(k) =~= prefix.take(k));
        }
        assert(swept.drop_last() =~= after_sweep(prefix, now));
        assert(todos.take(todos.len() - 1) =~= prefix);
        assert(swept.last() == if sweep_selects(todos, now, todos.len() - 1) {
            mark_notified(last)
        } else {
            last
        });
        assert(due_count(swept, now2) == due_count(swept.drop_last(), now2) + if due_unalerted(
            swept.last(),
            now2,
        ) {
            1int
        } else {
            0int
        });
        if sweep_selects(todos, now, todos.len() - 1) {
            assert(!due_unalerted(swept.last(), now2));
            assert(due_unalerted(last, now2));
        } else if due_unalerted(last, now) {
            assert(due_count(prefix, now) >= SWEEP_BATCH_CAP as int);
            assert(due_unalerted(last, now2));
        }
    }
}

/// `due_count` is a count: it is never negative.
proof fn lemma_due_count_nonnegative(todos: Seq<Todo>, now: int)
    ensures
        due_count(todos, now) >= 0,
    decreases todos.len(),
{
    if todos.len() > 0 {
        lemma_due_count_nonnegative(todos.drop_last(), now);
    }
}

} // verus!
