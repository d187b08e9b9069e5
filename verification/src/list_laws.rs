//! Which tasks a listing shows, and in which order, by the fields of the tasks.

use crate::clock;
use crate::clock::Instant;
use crate::ordering;
use crate::ordering::sort_tasks;
use crate::query_laws;
use crate::task;
use crate::task::{Task, TaskStatus, TaskView};
use crate::task_cli;
use crate::task_cli::{filter_tasks_for_list, ListArgs};
use vstd::prelude::*;
use vstd::string::*;

verus! {

/// Whether two texts agree up to a place at which the first ends or has the lesser character.
pub open spec fn parted_at(a: Seq<char>, b: Seq<char>, k: int) -> bool {
    &&& 0 <= k <= a.len()
    &&& k <= b.len()
    &&& forall|i: int| 0 <= i < k ==> a[i] == b[i]
    &&& k == a.len() || (k < b.len() && a[k] < b[k])
}

/// Whether a text is at most another, as dictionaries order them.
pub open spec fn at_most(a: Seq<char>, b: Seq<char>) -> bool {
    exists|k: int| #[trigger] parted_at(a, b, k)
}

proof fn lemma_at_most(a: Seq<char>, b: Seq<char>)
    ensures
        ordering::text_le(a, b) <==> at_most(a, b),
    decreases a.len(),
{
    if a.len() == 0 {
        assert(parted_at(a, b, 0));
    } else if b.len() > 0 {
        if a[0] != b[0] {
            if a[0] < b[0] {
                assert(parted_at(a, b, 0));
            }
        } else {
            let x = a.skip(1);
            let y = b.skip(1);
            lemma_at_most(x, y);
            if at_most(x, y) {
                let k = choose|k: int| #[trigger] parted_at(x, y, k);
                assert forall|i: int| 0 <= i < k + 1 implies a[i] == b[i] by {
                    if i > 0 {
                        assert(x[i - 1] == a[i] && y[i - 1] == b[i]);
                    }
                }
                assert(parted_at(a, b, k + 1));
            }
            if at_most(a, b) {
                let k = choose|k: int| #[trigger] parted_at(a, b, k);
                assert(k > 0);
                assert(parted_at(x, y, k - 1));
            }
        }
    }
}

/// Whether a task may stand before another by state, priority and time of creation: tasks in
/// progress come first, then open, closed and failed ones; of two in one state that with the
/// lesser priority number; of two that also share that, the one that was created first.
pub open spec fn stands_before(a: TaskView, b: TaskView) -> bool {
    &&& b.status == TaskStatus::InProgress ==> a.status == TaskStatus::InProgress
    &&& b.status == TaskStatus::Open ==> a.status == TaskStatus::InProgress || a.status
        == TaskStatus::Open
    &&& b.status == TaskStatus::Closed ==> a.status != TaskStatus::Failed
    &&& a.status == b.status ==> a.priority <= b.priority
    &&& a.status == b.status && a.priority == b.priority ==> at_most(a.created, b.created)
}

proof fn lemma_before(a: TaskView, b: TaskView)
    requires
        ordering::may_precede(a, b),
    ensures
        stands_before(a, b),
{
    lemma_at_most(a.created, b.created);
}

/// Sorting puts every task behind those that stand before it by state, priority and time of
/// creation, and it keeps the tasks that share all three as they were, in their order.
pub proof fn sorting_orders_by_fields(tasks: Vec<Task>, r: Vec<Task>)
    requires
        call_ensures(sort_tasks, (tasks,), r),
    ensures
        forall|i: int, j: int|
            0 <= i < j < r@.len() ==> stands_before((#[trigger] r@[i])@, (#[trigger] r@[j])@),
        forall|i: int, j: int|
            0 <= i < j < r@.len() && r@[i].status == r@[j].status ==> (#[trigger] r@[i]).priority <= (
            #[trigger] r@[j]).priority,
{
    let s = task::views(r@);
    assert forall|i: int, j: int| 0 <= i < j < r@.len() implies stands_before(
        (#[trigger] r@[i])@,
        (#[trigger] r@[j])@,
    ) by {
        assert(s[i] == r@[i]@ && s[j] == r@[j]@);
        lemma_before(s[i], s[j]);
    }
    assert forall|i: int, j: int|
        0 <= i < j < r@.len() && r@[i].status == r@[j].status implies (#[trigger] r@[i]).priority <= (
    #[trigger] r@[j]).priority by {
        assert(stands_before(r@[i]@, r@[j]@));
    }
}

/// Sorting loses no task, adds none, and leaves tasks with one state, priority and time of
/// creation in the order in which they came.
pub proof fn sorting_keeps_level_tasks(tasks: Vec<Task>, r: Vec<Task>, t: TaskView)
    requires
        call_ensures(sort_tasks, (tasks,), r),
    ensures
        task::views(r@).filter(
            |x: TaskView|
                x.status == t.status && x.priority == t.priority && x.created == t.created,
        ) == task::views(tasks@).filter(
            |x: TaskView|
                x.status == t.status && x.priority == t.priority && x.created == t.created,
        ),
        task::views(r@).contains(t) <==> task::views(tasks@).contains(t),
{
    let p = ordering::level_with(t);
    let q = |x: TaskView|
        x.status == t.status && x.priority == t.priority && x.created == t.created;
    query_laws::lemma_agree(task::views(r@), p, q);
    query_laws::lemma_agree(task::views(tasks@), p, q);
    ordering::ordering_keeps_tasks(task::views(r@), task::views(tasks@), t);
}

/// The name of a state in a listing's filter, without underscores and hyphens.
pub open spec fn plain_name(s: TaskStatus) -> Seq<char> {
    match s {
        TaskStatus::Open => "open"@,
        TaskStatus::InProgress => "inprogress"@,
        TaskStatus::Closed => "closed"@,
        TaskStatus::Failed => "failed"@,
    }
}

/// Whether a text is the time of something in the last days: it names an instant after the one
/// that lies so many days of 86400 seconds back.
pub open spec fn within_days(stamp: Seq<char>, now: Instant, days: int) -> bool {
    match clock::rfc3339_instant(stamp) {
        Some((seconds, nanos)) => seconds > now.seconds - days * 86400 || (seconds == now.seconds
            - days * 86400 && nanos > now.nanos),
        None => false,
    }
}

/// Whether a listing is about a task. With a state asked for, the task has to be in it; else it
/// has to be open or in progress, unless all tasks are asked for. With days asked for, it has
/// to have been created or closed in the last days.
pub open spec fn asked_for(t: TaskView, args: ListArgs, now: Instant) -> bool {
    &&& match args.status {
        Some(f) => task_cli::lowercased(f@).filter(|c: char| c != '_' && c != '-') == plain_name(
            t.status,
        ),
        None => args.all || t.status == TaskStatus::Open || t.status == TaskStatus::InProgress,
    }
    &&& match args.days {
        Some(d) => within_days(t.created, now, d as int) || (t.closed matches Some(c)
            && within_days(c, now, d as int)),
        None => true,
    }
}

proof fn lemma_selected(s: Seq<TaskView>, args: ListArgs, now: Instant)
    requires
        task_cli::days_representable(now, args.days),
    ensures
        task_cli::selected(s, args, now) == s.filter(|t: TaskView| asked_for(t, args, now)),
{
    let p = task_cli::listed_state(crate::json::opt_text(args.status), args.all);
    let q = task_cli::listed_time(now, args.days);
    let both = |t: TaskView| asked_for(t, args, now);
    let f = |c: char| c != '_' && c != '-';
    assert(f =~= task_cli::counts_in_name());
    assert forall|t: TaskView| #[trigger] both(t) == (p(t) && q(t)) by {}
    query_laws::lemma_both(s, p, q, both);
}

/// A listing shows its tasks in order: of two tasks in it, the former stands before the latter
/// by state, priority and time of creation, whatever the arguments are.
pub proof fn listings_are_ordered_by_fields(
    tasks: Vec<Task>,
    args: ListArgs,
    now: Instant,
    r: Vec<Task>,
)
    requires
        call_ensures(filter_tasks_for_list, (tasks, &args, now), r),
    ensures
        forall|i: int, j: int|
            0 <= i < j < r@.len() ==> stands_before((#[trigger] r@[i])@, (#[trigger] r@[j])@),
        forall|i: int, j: int|
            0 <= i < j < r@.len() && r@[i].status == r@[j].status ==> (#[trigger] r@[i]).priority <= (
            #[trigger] r@[j]).priority,
        args.limit matches Some(n) ==> r@.len() <= n,
{
    let s = task::views(r@);
    let from = task_cli::selected(task::views(tasks@), args, now);
    let full = choose|full: Seq<TaskView>| #[trigger]
        ordering::ordering_of(full, from) && s == task_cli::limited(full, args.limit);
    assert(s.len() == r@.len());
    assert(ordering::ordering_of(full, from) && s == task_cli::limited(full, args.limit));
    assert forall|i: int, j: int| 0 <= i < j < r@.len() implies stands_before(
        (#[trigger] r@[i])@,
        (#[trigger] r@[j])@,
    ) by {
        assert(s[i] == r@[i]@ && s[j] == r@[j]@);
        assert(s[i] == full[i] && s[j] == full[j]);
        lemma_before(s[i], s[j]);
    }
    assert forall|i: int, j: int|
        0 <= i < j < r@.len() && r@[i].status == r@[j].status implies (#[trigger] r@[i]).priority <= (
    #[trigger] r@[j]).priority by {
        assert(stands_before(r@[i]@, r@[j]@));
    }
}

/// Without a limit a listing shows exactly the tasks that it is about, each as often as it is
/// there, and tasks with one state, priority and time of creation in the order in which they
/// came.
pub proof fn listings_show_what_was_asked_for(
    tasks: Vec<Task>,
    args: ListArgs,
    now: Instant,
    r: Vec<Task>,
    t: TaskView,
)
    requires
        call_ensures(filter_tasks_for_list, (tasks, &args, now), r),
        args.days matches Some(d) ==> clock::MIN_SECONDS <= now.seconds - d * 86400
            <= clock::MAX_SECONDS,
        args.limit is None,
    ensures
        task::views(r@).contains(t) <==> task::views(tasks@).contains(t) && asked_for(t, args, now),
        task::views(r@).filter(
            |x: TaskView|
                x.status == t.status && x.priority == t.priority && x.created == t.created,
        ) == task::views(tasks@).filter(
            |x: TaskView|
                asked_for(x, args, now) && x.status == t.status && x.priority == t.priority
                    && x.created == t.created,
        ),
{
    broadcast use vstd::seq_lib::group_filter_ensures;

    let all = task::views(tasks@);
    let s = task::views(r@);
    let chosen = |x: TaskView| asked_for(x, args, now);
    lemma_selected(all, args, now);
    let from = all.filter(chosen);
    assert(ordering::ordering_of(s, from));
    ordering::ordering_keeps_tasks(s, from, t);
    if all.contains(t) && asked_for(t, args, now) {
        let i = choose|i: int| 0 <= i < all.len() && all[i] == t;
        assert(chosen(all[i]));
        assert(from.contains(all[i]));
    }
    if from.contains(t) {
        let k = choose|k: int| 0 <= k < from.len() && from[k] == t;
        assert(chosen(from[k]));
        crate::task_list::lemma_filter_from(all, chosen, k);
    }
    let p = ordering::level_with(t);
    let q = |x: TaskView|
        x.status == t.status && x.priority == t.priority && x.created == t.created;
    let both = |x: TaskView|
        asked_for(x, args, now) && x.status == t.status && x.priority == t.priority && x.created
            == t.created;
    query_laws::lemma_agree(s, p, q);
    assert(s.filter(p) == from.filter(p));
    query_laws::lemma_both(all, chosen, p, both);
}

/// Whether tasks are shown of those that there are: in order, no more than the limit, only
/// those that were asked for, and without a limit all of those.
pub open spec fn shown_of(
    shown: Seq<TaskView>,
    all: Seq<TaskView>,
    args: ListArgs,
    now: Instant,
) -> bool {
    &&& forall|i: int, j: int|
        0 <= i < j < shown.len() ==> stands_before(#[trigger] shown[i], #[trigger] shown[j])
    &&& args.limit matches Some(n) ==> shown.len() <= n
    &&& forall|t: TaskView| #[trigger]
        shown.contains(t) ==> all.contains(t) && asked_for(t, args, now)
    &&& args.limit is None ==> forall|t: TaskView|
        all.contains(t) && asked_for(t, args, now) ==> #[trigger] shown.contains(t)
}

pub(crate) proof fn lemma_shown(
    shown: Seq<TaskView>,
    all: Seq<TaskView>,
    args: ListArgs,
    now: Instant,
)
    requires
        task_cli::listing(shown, all, args, now),
        task_cli::days_representable(now, args.days),
    ensures
        shown_of(shown, all, args, now),
{
    broadcast use vstd::seq_lib::group_filter_ensures;

    let selected = task_cli::selected(all, args, now);
    let full = choose|full: Seq<TaskView>| #[trigger]
        ordering::ordering_of(full, selected) && shown == task_cli::limited(full, args.limit);
    let chosen = |x: TaskView| asked_for(x, args, now);
    lemma_selected(all, args, now);
    assert forall|i: int, j: int| 0 <= i < j < shown.len() implies stands_before(
        #[trigger] shown[i],
        #[trigger] shown[j],
    ) by {
        assert(shown[i] == full[i] && shown[j] == full[j]);
        lemma_before(shown[i], shown[j]);
    }
    assert forall|t: TaskView| #[trigger] shown.contains(t) implies all.contains(t) && asked_for(
        t,
        args,
        now,
    ) by {
        let i = choose|i: int| 0 <= i < shown.len() && shown[i] == t;
        assert(full[i] == t);
        assert(full.contains(t));
        ordering::ordering_keeps_tasks(full, selected, t);
        let k = choose|k: int| 0 <= k < selected.len() && selected[k] == t;
        assert(chosen(all.filter(chosen)[k]));
        crate::task_list::lemma_filter_from(all, chosen, k);
    }
    if args.limit is None {
        assert forall|t: TaskView|
            all.contains(t) && asked_for(t, args, now) implies #[trigger] shown.contains(t) by {
            let i = choose|i: int| 0 <= i < all.len() && all[i] == t;
            assert(chosen(all[i]));
            assert(all.filter(chosen).contains(all[i]));
            ordering::ordering_keeps_tasks(full, selected, t);
        }
    }
}

/// A limit cuts a listing off and changes nothing else: what is shown is the beginning of what
/// the same arguments show without a limit, up to the limit.
pub proof fn limits_cut_listings_off(
    tasks: Vec<Task>,
    args: ListArgs,
    wide: ListArgs,
    now: Instant,
    n: usize,
    r: Vec<Task>,
    whole: Vec<Task>,
)
    requires
        call_ensures(filter_tasks_for_list, (tasks, &args, now), r),
        call_ensures(filter_tasks_for_list, (tasks, &wide, now), whole),
        args.limit == Some(n),
        wide.limit is None,
        wide.status == args.status,
        wide.days == args.days,
        wide.all == args.all,
    ensures
        r@.len() == if n < whole@.len() {
            n as int
        } else {
            whole@.len() as int
        },
        forall|i: int| 0 <= i < r@.len() ==> (#[trigger] r@[i])@ == whole@[i]@,
{
    let all = task::views(tasks@);
    let from = task_cli::selected(all, args, now);
    let full = choose|full: Seq<TaskView>| #[trigger]
        ordering::ordering_of(full, from) && task::views(r@) == task_cli::limited(full, args.limit);
    ordering::ordering_is_unique(full, task::views(whole@), from);
    assert(task::views(r@).len() == r@.len());
    assert(full.len() == whole@.len());
    assert forall|i: int| 0 <= i < r@.len() implies (#[trigger] r@[i])@ == whole@[i]@ by {
        assert(task::views(r@)[i] == r@[i]@);
        assert(full[i] == whole@[i]@);
    }
}

/// A filter names a state in small letters, whatever underscores and hyphens stand in it: a
/// text whose other characters are the name says that state and no other.
pub proof fn filters_name_states(status: TaskStatus, lowered: &str, r: bool)
    requires
        call_ensures(task_cli::status_is_named, (status, lowered), r),
    ensures
        r <==> lowered@.filter(|c: char| c != '_' && c != '-') == plain_name(status),
{
    let f = |c: char| c != '_' && c != '-';
    assert(f =~= task_cli::counts_in_name());
}

/// Days can be looked back over where the instant so many days of 86400 seconds ago is one that
/// a timestamp can name; without days there is nothing to look back over.
pub proof fn days_must_be_representable(days: Option<i64>, now: Instant, r: bool)
    requires
        call_ensures(task_cli::days_are_representable, (days, now), r),
    ensures
        r <==> (days matches Some(d) ==> clock::MIN_SECONDS <= now.seconds - d * 86400
            <= clock::MAX_SECONDS),
{
}

} // verus!
