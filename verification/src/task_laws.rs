//! What holds of task lists across queries and changes.

use crate::task;
use crate::task::{TaskStatus, TaskView};
use crate::task_list;
use crate::task_list::Change;
use vstd::prelude::*;

verus! {

/// Selecting by a narrower condition directly, or after a wider one, is the same.
proof fn lemma_filter_narrows(
    s: Seq<TaskView>,
    wide: spec_fn(TaskView) -> bool,
    narrow: spec_fn(TaskView) -> bool,
)
    requires
        forall|t: TaskView| #[trigger] narrow(t) ==> wide(t),
    ensures
        s.filter(wide).filter(narrow) == s.filter(narrow),
    decreases s.len(),
{
    reveal(Seq::filter);
    if s.len() > 0 {
        lemma_filter_narrows(s.drop_last(), wide, narrow);
        let w = s.drop_last().filter(wide);
        if wide(s.last()) {
            assert(w.push(s.last()).drop_last() =~= w);
        }
    }
}

/// Selecting by a condition that every task meets changes nothing.
proof fn lemma_filter_all(s: Seq<TaskView>, p: spec_fn(TaskView) -> bool)
    requires
        forall|i: int| 0 <= i < s.len() ==> p(#[trigger] s[i]),
    ensures
        s.filter(p) == s,
    decreases s.len(),
{
    reveal(Seq::filter);
    if s.len() > 0 {
        lemma_filter_all(s.drop_last(), p);
        assert(s.drop_last().push(s.last()) =~= s);
    }
}

/// A task finishes its dependents' wait exactly when the first task with its identifier is
/// closed or failed.
proof fn lemma_finished(id: Seq<char>, s: Seq<TaskView>)
    ensures
        task::finished(id, s) == match task_list::by_id(s, id) {
            Some(t) => task::terminal(t.status),
            None => false,
        },
    decreases s.len(),
{
    if s.len() > 0 && s[0].id != id {
        lemma_finished(id, s.skip(1));
        task_list::lemma_first_place(s.skip(1), task_list::has_id(id));
        assert(!task_list::has_id(id)(s[0]));
    } else if s.len() > 0 {
        assert(task_list::has_id(id)(s[0]));
    }
}

/// The pending tasks are the open ones without the failed ones, and the ready tasks are
/// those of the pending ones that work can begin on: what is ready is pending, and what is
/// pending is open.
pub proof fn queries_nest(s: Seq<TaskView>, filter: Option<Seq<char>>)
    ensures
        task_list::pending_in(s, filter) == task_list::open_in(s, filter).filter(
            task_list::unfinished(),
        ),
        task_list::ready_in(s, filter) == task_list::pending_in(s, filter).filter(
            task_list::workable(task_list::scoped(s, filter)),
        ),
{
    let all = task_list::scoped(s, filter);
    lemma_filter_narrows(all, task_list::not_closed(), task_list::unfinished());
    lemma_filter_narrows(all, task_list::unfinished(), task_list::workable(all));
}

/// Without a loop filter, queries see every task.
pub proof fn no_filter_sees_all(s: Seq<TaskView>)
    ensures
        task_list::scoped(s, None) == s,
{
    lemma_filter_all(s, task_list::in_loop(None));
}

/// Under a loop filter, queries see the tasks of that loop and no others.
pub proof fn filter_sees_own_loop(s: Seq<TaskView>, l: Seq<char>, t: TaskView)
    ensures
        task_list::scoped(s, Some(l)).contains(t) <==> s.contains(t) && t.loop_id == Some(l),
{
    let p = task_list::in_loop(Some(l));
    broadcast use vstd::seq_lib::group_filter_ensures;

    if task_list::scoped(s, Some(l)).contains(t) {
        let i = choose|i: int|
            0 <= i < task_list::scoped(s, Some(l)).len() && task_list::scoped(s, Some(l))[i] == t;
        assert(p(s.filter(p)[i]));
        task_list::lemma_filter_from(s, p, i);
    }
    if s.contains(t) && t.loop_id == Some(l) {
        let i = choose|i: int| 0 <= i < s.len() && s[i] == t;
        assert(p(s[i]));
        assert(s.filter(p).contains(s[i]));
    }
}

/// A change leaves every task but one as it is, keeps the order and all identifiers, and
/// removes none.
pub proof fn changes_touch_one_task(s: Seq<TaskView>, c: Change, j: int)
    requires
        0 <= j < s.len(),
    ensures
        s.len() <= task_list::applied(s, c).len() <= s.len() + 1,
        task_list::applied(s, c)[j].id == s[j].id,
        task_list::applied(s, c)[j].created == s[j].created,
        match task_list::rewritten(s, c) {
            Some((i, t)) => 0 <= i < s.len() && (i != j ==> task_list::applied(s, c)[j] == s[j]),
            None => task_list::applied(s, c)[j] == s[j],
        },
{
    lemma_rewritten(s, c);
}

/// Where a change rewrites a task, it is the first one that it names.
proof fn lemma_rewritten(s: Seq<TaskView>, c: Change)
    ensures
        task_list::rewritten(s, c) matches Some((i, t)) ==> 0 <= i < s.len() && t.id == s[i].id
            && t.created == s[i].created && t.key == s[i].key && t.loop_id == s[i].loop_id,
{
    match c {
        Change::Add(_) => {},
        Change::Close(id, _) => task_list::lemma_first_place(s, task_list::has_id(id)),
        Change::Start(id, _) => task_list::lemma_first_place(s, task_list::has_id(id)),
        Change::Fail(id, _) => task_list::lemma_first_place(s, task_list::has_id(id)),
        Change::Reopen(id) => task_list::lemma_first_place(s, task_list::has_id(id)),
        Change::Ensure(t) => {
            if let Some(key) = t.key {
                task_list::lemma_first_place(s, task_list::has_key(key));
            }
        },
    }
}

/// The identifier that a change names.
pub open spec fn named_id(c: Change) -> Option<Seq<char>> {
    match c {
        Change::Close(id, _) => Some(id),
        Change::Start(id, _) => Some(id),
        Change::Fail(id, _) => Some(id),
        Change::Reopen(id) => Some(id),
        _ => None,
    }
}

/// The state that a change by identifier leads to.
pub open spec fn resulting_status(c: Change) -> TaskStatus {
    match c {
        Change::Close(_, _) => TaskStatus::Closed,
        Change::Start(_, _) => TaskStatus::InProgress,
        Change::Fail(_, _) => TaskStatus::Failed,
        _ => TaskStatus::Open,
    }
}

/// A change by identifier replies with the task in its new state, and a later read by that
/// identifier gives that very task back.
pub proof fn change_then_get(s: Seq<TaskView>, c: Change, id: Seq<char>)
    requires
        named_id(c) == Some(id),
    ensures
        task_list::by_id(task_list::applied(s, c), id) == task_list::replied(s, c),
        match task_list::replied(s, c) {
            Some(t) => task_list::by_id(s, id) is Some && t.id == id && t.status
                == resulting_status(c),
            None => task_list::by_id(s, id) is None,
        },
{
    let p = task_list::has_id(id);
    task_list::lemma_first_place(s, p);
    match task_list::rewritten(s, c) {
        Some((i, t)) => {
            let after = task_list::applied(s, c);
            assert(p(after[i]));
            assert forall|j: int| 0 <= j < i implies !p(#[trigger] after[j]) by {
                assert(after[j] == s[j]);
            }
            task_list::lemma_first_place_is(after, p, i);
        },
        None => {},
    }
}

/// A change by an identifier that no task has changes nothing and finds nothing.
pub proof fn unknown_id_changes_nothing(s: Seq<TaskView>, c: Change, id: Seq<char>)
    requires
        named_id(c) == Some(id),
        forall|i: int| 0 <= i < s.len() ==> (#[trigger] s[i]).id != id,
    ensures
        task_list::applied(s, c) == s,
        task_list::replied(s, c) is None,
{
    task_list::lemma_first_place(s, task_list::has_id(id));
}

/// A task added under a fresh identifier is found again.
pub proof fn add_then_get(s: Seq<TaskView>, t: TaskView)
    requires
        forall|i: int| 0 <= i < s.len() ==> (#[trigger] s[i]).id != t.id,
    ensures
        task_list::by_id(task_list::applied(s, Change::Add(t)), t.id) == Some(t),
        task_list::replied(s, Change::Add(t)) == Some(t),
{
    let after = s.push(t);
    let p = task_list::has_id(t.id);
    assert forall|j: int| 0 <= j < s.len() implies !p(#[trigger] after[j]) by {
        assert(after[j] == s[j]);
    }
    task_list::lemma_first_place_is(after, p, s.len() as int);
}

/// Closing or failing a task lifts the block that it is for others; starting or reopening
/// it sets the block again.
pub proof fn finishing_unblocks(s: Seq<TaskView>, c: Change, id: Seq<char>)
    requires
        named_id(c) == Some(id),
        task_list::by_id(s, id) is Some,
    ensures
        task::finished(id, task_list::applied(s, c)) == (c is Close || c is Fail),
{
    change_then_get(s, c, id);
    lemma_finished(id, task_list::applied(s, c));
}

/// A task that waits for a task that is not in the list, or not finished, is not ready.
pub proof fn unfinished_blocker_blocks(t: TaskView, s: Seq<TaskView>, i: int)
    requires
        0 <= i < t.blocked_by.len(),
        task_list::by_id(s, t.blocked_by[i]) matches Some(b) ==> !task::terminal(b.status),
    ensures
        !task::ready_among(t, s),
{
    lemma_finished(t.blocked_by[i], s);
}

/// Reopening undoes closing and failing: an open task without a closing time is as it was.
pub proof fn reopen_undoes_finishing(s: Seq<TaskView>, id: Seq<char>, stamp: Seq<char>)
    requires
        task_list::by_id(s, id) matches Some(t) ==> t.status is Open && t.closed is None,
    ensures
        task_list::applied(
            task_list::applied(s, Change::Close(id, stamp)),
            Change::Reopen(id),
        ) == s,
        task_list::applied(
            task_list::applied(s, Change::Fail(id, stamp)),
            Change::Reopen(id),
        ) == s,
{
    let p = task_list::has_id(id);
    task_list::lemma_first_place(s, p);
    if let Some(i) = task_list::first_place(s, p) {
        let closed = task_list::applied(s, Change::Close(id, stamp));
        let failed = task_list::applied(s, Change::Fail(id, stamp));
        assert forall|j: int| 0 <= j < i implies !p(#[trigger] closed[j]) by {
            assert(closed[j] == s[j]);
        }
        assert forall|j: int| 0 <= j < i implies !p(#[trigger] failed[j]) by {
            assert(failed[j] == s[j]);
        }
        task_list::lemma_first_place_is(closed, p, i);
        task_list::lemma_first_place_is(failed, p, i);
        assert(task::reopened_task(closed[i]) =~= s[i]);
        assert(task::reopened_task(failed[i]) =~= s[i]);
        assert(closed.update(i, task::reopened_task(closed[i])) =~= s);
        assert(failed.update(i, task::reopened_task(failed[i])) =~= s);
    }
}

/// A keyed task that was ensured is found by its key, as the reply gave it.
pub proof fn ensure_then_get(s: Seq<TaskView>, t: TaskView, key: Seq<char>)
    requires
        t.key == Some(key),
    ensures
        task_list::by_key(task_list::applied(s, Change::Ensure(t)), key) == task_list::replied(
            s,
            Change::Ensure(t),
        ),
        task_list::replied(s, Change::Ensure(t)) is Some,
{
    let p = task_list::has_key(key);
    let after = task_list::applied(s, Change::Ensure(t));
    task_list::lemma_first_place(s, p);
    match task_list::first_place(s, p) {
        Some(i) => {
            assert forall|j: int| 0 <= j < i implies !p(#[trigger] after[j]) by {
                assert(after[j] == s[j]);
            }
            assert(p(after[i]));
            task_list::lemma_first_place_is(after, p, i);
        },
        None => {
            assert forall|j: int| 0 <= j < s.len() implies !p(#[trigger] after[j]) by {
                assert(after[j] == s[j]);
            }
            assert(p(after[s.len() as int]));
            task_list::lemma_first_place_is(after, p, s.len() as int);
        },
    }
}

/// Ensuring a keyed task again changes nothing and gives the same reply.
pub proof fn ensure_is_idempotent(s: Seq<TaskView>, t: TaskView)
    requires
        t.key is Some,
    ensures
        task_list::applied(task_list::applied(s, Change::Ensure(t)), Change::Ensure(t))
            == task_list::applied(s, Change::Ensure(t)),
        task_list::replied(task_list::applied(s, Change::Ensure(t)), Change::Ensure(t))
            == task_list::replied(s, Change::Ensure(t)),
{
    let key = t.key->0;
    let p = task_list::has_key(key);
    let after = task_list::applied(s, Change::Ensure(t));
    ensure_then_get(s, t, key);
    task_list::lemma_first_place(s, p);
    task_list::lemma_first_place(after, p);
    let i = task_list::first_place(after, p)->0;
    assert(task_list::merged_task(after[i], t) =~= after[i]);
    assert(after.update(i, after[i]) =~= after);
}

/// Ensuring a task whose key is taken keeps the life of the existing task: its identifier,
/// state, times, loop and metadata. Without new blockers it keeps the blockers, and without
/// a new description the description.
pub proof fn ensure_keeps_lifecycle(s: Seq<TaskView>, t: TaskView, key: Seq<char>)
    requires
        t.key == Some(key),
        task_list::by_key(s, key) is Some,
    ensures
        task_list::applied(s, Change::Ensure(t)).len() == s.len(),
        ({
            let before = task_list::by_key(s, key)->0;
            let after = task_list::replied(s, Change::Ensure(t))->0;
            &&& after.id == before.id
            &&& after.status == before.status
            &&& after.created == before.created
            &&& after.started == before.started
            &&& after.closed == before.closed
            &&& after.loop_id == before.loop_id
            &&& after.metadata == before.metadata
            &&& after.title == t.title
            &&& after.priority == t.priority
            &&& t.blocked_by.len() == 0 ==> after.blocked_by == before.blocked_by
            &&& t.description is None ==> after.description == before.description
        }),
{
    task_list::lemma_first_place(s, task_list::has_key(key));
}

/// Whether no two tasks share a key.
pub open spec fn distinct_task_keys(s: Seq<TaskView>) -> bool {
    forall|i: int, j: int|
        0 <= i < j < s.len() && (#[trigger] s[i]).key is Some ==> s[i].key != (#[trigger] s[j]).key
}

/// Ensuring keeps keys distinct.
pub proof fn ensure_keeps_keys_distinct(s: Seq<TaskView>, t: TaskView)
    requires
        distinct_task_keys(s),
    ensures
        distinct_task_keys(task_list::applied(s, Change::Ensure(t))),
{
    let after = task_list::applied(s, Change::Ensure(t));
    lemma_rewritten(s, Change::Ensure(t));
    if let Some(key) = t.key {
        task_list::lemma_first_place(s, task_list::has_key(key));
    }
    assert forall|i: int, j: int|
        0 <= i < j < after.len() && (#[trigger] after[i]).key is Some implies after[i].key != (
    #[trigger] after[j]).key by {
        assert(after[i].key == s[i].key);
        if j < s.len() {
            assert(after[j].key == s[j].key);
        } else {
            assert(after[j] == t);
            if let Some(key) = t.key {
                assert(!task_list::has_key(key)(s[i]));
            }
        }
    }
}

} // verus!
