//! What the queries of a store answer, field by field.

use crate::json;
use crate::pattern;
use crate::task;
use crate::task::{MetaValue, MetaView, Task, TaskStatus, TaskView};
use crate::task_cli::{Output, OutputView};
use crate::task_list;
use crate::task_source::{ErrorView, TaskSource, TaskSourceError, TaskSourceResult};
use vstd::prelude::*;
use vstd::string::*;

verus! {

/// The view of a task shows every field as it is.
pub proof fn views_show_every_field(t: Task)
    ensures
        t@.id == t.id@,
        t@.title == t.title@,
        t.description matches Some(d) ==> t@.description == Some(d@),
        t.description is None ==> t@.description is None,
        t.key matches Some(k) ==> t@.key == Some(k@),
        t.key is None ==> t@.key is None,
        t@.status == t.status,
        t@.priority == t.priority,
        t@.blocked_by.len() == t.blocked_by@.len(),
        forall|i: int|
            0 <= i < t.blocked_by@.len() ==> t@.blocked_by[i] == (#[trigger] t.blocked_by@[i])@,
        t.loop_id matches Some(l) ==> t@.loop_id == Some(l@),
        t.loop_id is None ==> t@.loop_id is None,
        t@.created == t.created@,
        t.started matches Some(s) ==> t@.started == Some(s@),
        t.started is None ==> t@.started is None,
        t.closed matches Some(c) ==> t@.closed == Some(c@),
        t.closed is None ==> t@.closed is None,
        t@.metadata.len() == t.metadata@.len(),
        forall|i: int|
            0 <= i < t.metadata@.len() ==> t@.metadata[i].0 == (#[trigger] t.metadata@[i]).0@
                && match t.metadata@[i].1 {
                MetaValue::Text(s) => t@.metadata[i].1 == MetaView::Text(s@),
                MetaValue::Json(s) => t@.metadata[i].1 == MetaView::Json(s@),
                MetaValue::List(v) => t@.metadata[i].1 is List && t@.metadata[i].1->List_0.len()
                    == v@.len() && forall|k: int|
                    0 <= k < v@.len() ==> t@.metadata[i].1->List_0[k] == (#[trigger] v@[k])@,
            },
{
}

/// The view of a list of tasks shows each of them, in order.
pub proof fn views_show_every_task(v: Seq<Task>, t: Option<Task>)
    ensures
        task::views(v).len() == v.len(),
        forall|i: int| 0 <= i < v.len() ==> task::views(v)[i] == (#[trigger] v[i])@,
        t matches Some(x) ==> task::opt_view(t) == Some(x@),
        t is None ==> task::opt_view(t) is None,
{
}

/// The view of a list of strings shows the characters of each, and that of an optional string
/// shows its characters where there is one.
pub proof fn views_show_every_string(v: Vec<String>, opt: Option<String>)
    ensures
        pattern::texts(v@).len() == v@.len(),
        forall|i: int| 0 <= i < v@.len() ==> pattern::texts(v@)[i] == (#[trigger] v@[i])@,
        opt matches Some(s) ==> json::opt_text(opt) == Some(s@),
        opt is None ==> json::opt_text(opt) is None,
{
}

/// The view of an error shows its kind and its fields as they are.
pub proof fn views_show_every_error(e: TaskSourceError)
    ensures
        match e {
            TaskSourceError::Retryable { source, retry_after } => e@ == ErrorView::Retryable {
                source: source@,
                retry_after,
            },
            TaskSourceError::Auth(m) => e@ == ErrorView::Auth(m@),
            TaskSourceError::NotFound(m) => e@ == ErrorView::NotFound(m@),
            TaskSourceError::Config(m) => e@ == ErrorView::Config(m@),
            TaskSourceError::Other(m) => e@ == ErrorView::Other(m@),
        },
{
}

/// The view of an output shows its lines or its tasks as they are.
pub proof fn views_show_every_output(o: Output)
    ensures
        match o {
            Output::Lines(l) => o@ is Lines && o@->Lines_0.len() == l@.len() && forall|i: int|
                0 <= i < l@.len() ==> o@->Lines_0[i] == (#[trigger] l@[i])@,
            Output::Json(t) => o@ == OutputView::Json(t@),
            Output::PrettyJson(t) => o@ == OutputView::PrettyJson(t@),
            Output::PrettyJsonList(v) => o@ == OutputView::PrettyJsonList(task::views(v@)),
        },
{
}

/// Choosing twice is choosing by both conditions.
pub(crate) proof fn lemma_both(
    s: Seq<TaskView>,
    p: spec_fn(TaskView) -> bool,
    q: spec_fn(TaskView) -> bool,
    both: spec_fn(TaskView) -> bool,
)
    requires
        forall|t: TaskView| #[trigger] both(t) == (p(t) && q(t)),
    ensures
        s.filter(p).filter(q) == s.filter(both),
    decreases s.len(),
{
    reveal(Seq::filter);
    if s.len() > 0 {
        lemma_both(s.drop_last(), p, q, both);
        assert(both(s.last()) == (p(s.last()) && q(s.last())));
        let kept = s.drop_last().filter(p);
        if p(s.last()) {
            assert(kept.push(s.last()).drop_last() =~= kept);
        }
    }
}

/// Conditions that agree choose the same.
pub(crate) proof fn lemma_agree(
    s: Seq<TaskView>,
    p: spec_fn(TaskView) -> bool,
    q: spec_fn(TaskView) -> bool,
)
    requires
        forall|t: TaskView| #[trigger] p(t) == q(t),
    ensures
        s.filter(p) == s.filter(q),
    decreases s.len(),
{
    reveal(Seq::filter);
    if s.len() > 0 {
        lemma_agree(s.drop_last(), p, q);
        assert(p(s.last()) == q(s.last()));
    }
}

/// All tasks of a loop are those that belong to it, in order; without a loop, every task.
pub proof fn all_is_the_loop(s: Seq<TaskView>, filter: Option<Seq<char>>)
    ensures
        task_list::scoped(s, filter) == s.filter(
            |t: TaskView| filter is None || t.loop_id == filter,
        ),
        filter is None ==> task_list::scoped(s, filter) == s,
{
    let q = |t: TaskView| filter is None || t.loop_id == filter;
    lemma_agree(s, task_list::in_loop(filter), q);
    if filter is None {
        crate::task_laws::no_filter_sees_all(s);
    }
}

/// The open tasks of a loop are all of its tasks that are open, in progress or failed, in
/// order.
pub proof fn open_is_all_but_closed(s: Seq<TaskView>, filter: Option<Seq<char>>)
    ensures
        task_list::open_in(s, filter) == s.filter(
            |t: TaskView|
                (filter is None || t.loop_id == filter) && (t.status == TaskStatus::Open || t.status
                    == TaskStatus::InProgress || t.status == TaskStatus::Failed),
        ),
{
    lemma_both(
        s,
        task_list::in_loop(filter),
        task_list::not_closed(),
        |t: TaskView|
            (filter is None || t.loop_id == filter) && (t.status == TaskStatus::Open || t.status
                == TaskStatus::InProgress || t.status == TaskStatus::Failed),
    );
}

/// The pending tasks of a loop are all of its tasks that are open or in progress, in order.
pub proof fn pending_is_open_or_in_progress(s: Seq<TaskView>, filter: Option<Seq<char>>)
    ensures
        task_list::pending_in(s, filter) == s.filter(
            |t: TaskView|
                (filter is None || t.loop_id == filter) && (t.status == TaskStatus::Open || t.status
                    == TaskStatus::InProgress),
        ),
{
    lemma_both(
        s,
        task_list::in_loop(filter),
        task_list::unfinished(),
        |t: TaskView|
            (filter is None || t.loop_id == filter) && (t.status == TaskStatus::Open || t.status
                == TaskStatus::InProgress),
    );
}

/// Whether `b` is the first task with the identifier.
pub open spec fn first_with_id(s: Seq<TaskView>, id: Seq<char>, b: int) -> bool {
    0 <= b < s.len() && s[b].id == id && forall|j: int| 0 <= j < b ==> (#[trigger] s[j]).id != id
}

/// Whether the first task with the identifier is closed or failed. There has to be one.
pub open spec fn done_with(s: Seq<TaskView>, id: Seq<char>) -> bool {
    exists|b: int| #[trigger]
        first_with_id(s, id, b) && (s[b].status == TaskStatus::Closed || s[b].status
            == TaskStatus::Failed)
}

/// Whether a blocker is out of the way is decided by the first task with its identifier, which
/// has to be closed or failed.
pub proof fn finished_means_closed_or_failed(id: Seq<char>, s: Seq<TaskView>)
    ensures
        task::finished(id, s) <==> done_with(s, id),
        forall|b: int| #[trigger]
            first_with_id(s, id, b) ==> task::finished(id, s) == (s[b].status == TaskStatus::Closed
                || s[b].status == TaskStatus::Failed),
    decreases s.len(),
{
    if s.len() > 0 {
        let rest = s.skip(1);
        finished_means_closed_or_failed(id, rest);
        if s[0].id == id {
            assert(first_with_id(s, id, 0));
        } else {
            if task::finished(id, s) {
                let b = choose|b: int| #[trigger]
                    first_with_id(rest, id, b) && (rest[b].status == TaskStatus::Closed
                        || rest[b].status == TaskStatus::Failed);
                assert forall|j: int| 0 <= j < b + 1 implies (#[trigger] s[j]).id != id by {
                    if j > 0 {
                        assert(rest[j - 1] == s[j]);
                    }
                }
                assert(first_with_id(s, id, b + 1));
            }
            assert forall|b: int| #[trigger] first_with_id(s, id, b) implies first_with_id(
                rest,
                id,
                b - 1,
            ) by {
                assert(b > 0);
                assert forall|j: int| 0 <= j < b - 1 implies (#[trigger] rest[j]).id != id by {
                    assert(rest[j] == s[j + 1]);
                }
            }
            assert forall|b: int| #[trigger] first_with_id(s, id, b) implies task::finished(id, s)
                == (s[b].status == TaskStatus::Closed || s[b].status == TaskStatus::Failed) by {
                assert(first_with_id(rest, id, b - 1));
            }
        }
    }
}

/// Work on a task can begin exactly when it is open and each of its blockers is a task of the
/// list that is closed or failed. In particular an open task without blockers is ready,
/// whatever its other fields are.
pub proof fn ready_means_open_and_unblocked(t: Task, all: Vec<Task>, r: bool)
    requires
        call_ensures(Task::is_ready, (&t, &all), r),
    ensures
        r <==> t.status == TaskStatus::Open && forall|i: int|
            0 <= i < t.blocked_by@.len() ==> done_with(
                task::views(all@),
                (#[trigger] t.blocked_by@[i])@,
            ),
        t.status == TaskStatus::Open && t.blocked_by@.len() == 0 ==> r,
{
    let s = task::views(all@);
    lemma_ready(t@, s);
    views_show_every_field(t);
    if r {
        assert forall|i: int| 0 <= i < t.blocked_by@.len() implies done_with(
            s,
            (#[trigger] t.blocked_by@[i])@,
        ) by {
            assert(done_with(s, t@.blocked_by[i]));
        }
    } else if t.status == TaskStatus::Open && forall|i: int|
        0 <= i < t.blocked_by@.len() ==> done_with(s, (#[trigger] t.blocked_by@[i])@) {
        assert forall|i: int| 0 <= i < t@.blocked_by.len() implies done_with(
            s,
            #[trigger] t@.blocked_by[i],
        ) by {
            assert(t@.blocked_by[i] == t.blocked_by@[i]@);
        }
    }
}

proof fn lemma_ready(t: TaskView, s: Seq<TaskView>)
    ensures
        task::ready_among(t, s) <==> t.status == TaskStatus::Open && forall|i: int|
            0 <= i < t.blocked_by.len() ==> done_with(s, #[trigger] t.blocked_by[i]),
{
    assert forall|i: int| 0 <= i < t.blocked_by.len() implies task::finished(
        #[trigger] t.blocked_by[i],
        s,
    ) == done_with(s, t.blocked_by[i]) by {
        finished_means_closed_or_failed(t.blocked_by[i], s);
    }
}

/// The ready tasks of a loop are all of its open tasks each of whose blockers is, by the first
/// task of the loop with that identifier, closed or failed, in order.
pub proof fn ready_is_all_that_can_begin(s: Seq<TaskView>, filter: Option<Seq<char>>)
    ensures
        ({
            let mine = s.filter(|t: TaskView| filter is None || t.loop_id == filter);
            &&& task_list::ready_in(s, filter) == mine.filter(
                |t: TaskView|
                    t.status == TaskStatus::Open && forall|i: int|
                        0 <= i < t.blocked_by.len() ==> done_with(mine, #[trigger] t.blocked_by[i]),
            )
            &&& forall|t: TaskView|
                s.contains(t) && (filter is None || t.loop_id == filter) && t.status
                    == TaskStatus::Open && t.blocked_by.len() == 0 ==> #[trigger]
                    task_list::ready_in(s, filter).contains(t)
        }),
{
    let mine = s.filter(|t: TaskView| filter is None || t.loop_id == filter);
    all_is_the_loop(s, filter);
    let q = |t: TaskView|
        t.status == TaskStatus::Open && forall|i: int|
            0 <= i < t.blocked_by.len() ==> done_with(mine, #[trigger] t.blocked_by[i]);
    assert forall|t: TaskView| #[trigger] task_list::workable(mine)(t) == q(t) by {
        lemma_ready(t, mine);
    }
    lemma_agree(mine, task_list::workable(mine), q);
    broadcast use vstd::seq_lib::group_filter_ensures;

    let p = |t: TaskView| filter is None || t.loop_id == filter;
    assert forall|t: TaskView|
        s.contains(t) && (filter is None || t.loop_id == filter) && t.status == TaskStatus::Open
            && t.blocked_by.len() == 0 implies #[trigger] task_list::ready_in(s, filter).contains(
        t,
    ) by {
        let i = choose|i: int| 0 <= i < s.len() && s[i] == t;
        assert(p(s[i]));
        assert(mine.contains(s[i]));
        let k = choose|k: int| 0 <= k < mine.len() && mine[k] == t;
        assert(q(mine[k]));
        assert(mine.filter(q).contains(mine[k]));
    }
}

/// A task is found by its identifier exactly where a task has it, and it is the first that
/// has; likewise by its key.
pub proof fn finding_gives_the_first(s: Seq<TaskView>, x: Seq<char>)
    ensures
        match task_list::by_id(s, x) {
            Some(t) => exists|i: int| #[trigger] first_with_id(s, x, i) && s[i] == t,
            None => forall|i: int| 0 <= i < s.len() ==> (#[trigger] s[i]).id != x,
        },
        match task_list::by_key(s, x) {
            Some(t) => exists|i: int|
                0 <= i < s.len() && #[trigger] s[i] == t && t.key == Some(x) && forall|j: int|
                    0 <= j < i ==> (#[trigger] s[j]).key != Some(x),
            None => forall|i: int| 0 <= i < s.len() ==> (#[trigger] s[i]).key != Some(x),
        },
{
    let p = task_list::has_id(x);
    let q = task_list::has_key(x);
    task_list::lemma_first_place(s, p);
    task_list::lemma_first_place(s, q);
    match task_list::first_place(s, p) {
        Some(i) => {
            assert forall|j: int| 0 <= j < i implies (#[trigger] s[j]).id != x by {
                assert(!p(s[j]));
            }
            assert(first_with_id(s, x, i));
        },
        None => {
            assert forall|i: int| 0 <= i < s.len() implies (#[trigger] s[i]).id != x by {
                assert(!p(s[i]));
            }
        },
    }
    match task_list::first_place(s, q) {
        Some(i) => {
            assert forall|j: int| 0 <= j < i implies (#[trigger] s[j]).key != Some(x) by {
                assert(!q(s[j]));
            }
        },
        None => {
            assert forall|i: int| 0 <= i < s.len() implies (#[trigger] s[i]).key != Some(x) by {
                assert(!q(s[i]));
            }
        },
    }
}

/// Every store answers its queries from its tasks: what it lists is what the loop, the open,
/// the pending and the ready tasks are, and what it finds is the first task that is asked for.
pub proof fn stores_answer_from_their_tasks<S: TaskSource>(
    s: &S,
    id: &str,
    all: TaskSourceResult<Vec<Task>>,
    open: TaskSourceResult<Vec<Task>>,
    pending: TaskSourceResult<Vec<Task>>,
    ready: TaskSourceResult<Vec<Task>>,
    got: TaskSourceResult<Option<Task>>,
    keyed: TaskSourceResult<Option<Task>>,
)
    requires
        call_ensures(S::all, (s,), all),
        call_ensures(S::open, (s,), open),
        call_ensures(S::pending, (s,), pending),
        call_ensures(S::ready, (s,), ready),
        call_ensures(S::get, (s, id), got),
        call_ensures(S::get_by_key, (s, id), keyed),
    ensures
        ({
            let f = s.loop_filter();
            let mine = s.tasks().filter(|t: TaskView| f is None || t.loop_id == f);
            &&& all matches Ok(v) ==> task::views(v@) == mine
            &&& open matches Ok(v) ==> task::views(v@) == s.tasks().filter(
                |t: TaskView|
                    (f is None || t.loop_id == f) && (t.status == TaskStatus::Open || t.status
                        == TaskStatus::InProgress || t.status == TaskStatus::Failed),
            )
            &&& pending matches Ok(v) ==> task::views(v@) == s.tasks().filter(
                |t: TaskView|
                    (f is None || t.loop_id == f) && (t.status == TaskStatus::Open || t.status
                        == TaskStatus::InProgress),
            )
            &&& ready matches Ok(v) ==> task::views(v@) == mine.filter(
                |t: TaskView|
                    t.status == TaskStatus::Open && forall|i: int|
                        0 <= i < t.blocked_by.len() ==> done_with(mine, #[trigger] t.blocked_by[i]),
            )
            &&& got matches Ok(Some(t)) ==> exists|i: int| #[trigger]
                first_with_id(s.tasks(), id@, i) && s.tasks()[i] == t@
            &&& got matches Ok(None) ==> forall|i: int|
                0 <= i < s.tasks().len() ==> (#[trigger] s.tasks()[i]).id != id@
            &&& keyed matches Ok(Some(t)) ==> t@.key == Some(id@) && s.tasks().contains(t@)
            &&& keyed matches Ok(None) ==> forall|i: int|
                0 <= i < s.tasks().len() ==> (#[trigger] s.tasks()[i]).key != Some(id@)
        }),
{
    let f = s.loop_filter();
    all_is_the_loop(s.tasks(), f);
    open_is_all_but_closed(s.tasks(), f);
    pending_is_open_or_in_progress(s.tasks(), f);
    ready_is_all_that_can_begin(s.tasks(), f);
    finding_gives_the_first(s.tasks(), id@);
}

} // verus!
