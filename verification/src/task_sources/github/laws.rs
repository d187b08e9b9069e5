//! What a GitHub issue says as a task, label by label and field by field.

use crate::number;
use crate::task::{MetaView, Task, TaskStatus};
use crate::task_sources::github;
use crate::task_sources::github::api::{GhIssue, GhUser, Label};
use crate::task_sources::github::metadata;
use crate::task_sources::github::GithubTaskSource;
use crate::text;
use crate::text_laws;
use vstd::prelude::*;
use vstd::string::*;

verus! {

proof fn lemma_first_said<T>(
    names: Seq<Seq<char>>,
    f: spec_fn(Seq<char>) -> Option<T>,
    k: int,
)
    requires
        0 <= k < names.len(),
        f(names[k]) is Some,
        forall|j: int| 0 <= j < k ==> f(#[trigger] names[j]) is None,
    ensures
        github::first_said(names, f) == f(names[k]),
    decreases names.len(),
{
    if k > 0 {
        assert(f(names[0]) is None);
        let rest = names.skip(1);
        assert forall|j: int| 0 <= j < k - 1 implies f(#[trigger] rest[j]) is None by {
            assert(rest[j] == names[j + 1]);
        }
        assert(rest[k - 1] == names[k]);
        lemma_first_said(rest, f, k - 1);
    }
}

proof fn lemma_none_said<T>(names: Seq<Seq<char>>, f: spec_fn(Seq<char>) -> Option<T>)
    requires
        forall|j: int| 0 <= j < names.len() ==> f(#[trigger] names[j]) is None,
    ensures
        github::first_said(names, f) is None,
    decreases names.len(),
{
    if names.len() > 0 {
        let rest = names.skip(1);
        assert forall|j: int| 0 <= j < rest.len() implies f(#[trigger] rest[j]) is None by {
            assert(rest[j] == names[j + 1]);
        }
        lemma_none_said(rest, f);
    }
}

/// Whether a label is one of the four that stand for states.
pub open spec fn is_state_label(name: Seq<char>) -> bool {
    name == "status/todo"@ || name == "status/in-progress"@ || name == "status/done"@ || name
        == "status/failed"@
}

proof fn lemma_state_names()
    ensures
        "status/todo"@ != "status/in-progress"@,
        "status/todo"@ != "status/done"@,
        "status/todo"@ != "status/failed"@,
        "status/in-progress"@ != "status/done"@,
        "status/in-progress"@ != "status/failed"@,
        "status/done"@ != "status/failed"@,
{
    reveal_strlit("status/todo");
    reveal_strlit("status/in-progress");
    reveal_strlit("status/done");
    reveal_strlit("status/failed");
    assert("status/todo"@[7] == 't' && "status/in-progress"@[7] == 'i' && "status/done"@[7] == 'd'
        && "status/failed"@[7] == 'f');
}

/// The first of an issue's state labels, whatever other labels stand before it or behind it,
/// says the state of its task: `status/todo` that it is open, `status/in-progress` that it is
/// in progress, `status/done` that it is closed, `status/failed` that it failed.
pub proof fn first_state_label_decides(i: GhIssue, r: Task, k: int)
    requires
        call_ensures(GithubTaskSource::issue_to_task, (&i,), r),
        0 <= k < i.labels@.len(),
        is_state_label(i.labels@[k].name@),
        forall|j: int| 0 <= j < k ==> !is_state_label((#[trigger] i.labels@[j]).name@),
    ensures
        i.labels@[k].name@ == "status/todo"@ ==> r.status == TaskStatus::Open,
        i.labels@[k].name@ == "status/in-progress"@ ==> r.status == TaskStatus::InProgress,
        i.labels@[k].name@ == "status/done"@ ==> r.status == TaskStatus::Closed,
        i.labels@[k].name@ == "status/failed"@ ==> r.status == TaskStatus::Failed,
        github::issue_task(i).status == r.status,
{
    lemma_state_names();
    let names = github::label_names(i.labels@);
    let f = |n: Seq<char>| github::said_status(n);
    assert(names[k] == i.labels@[k].name@);
    assert forall|j: int| 0 <= j < k implies f(#[trigger] names[j]) is None by {
        assert(names[j] == i.labels@[j].name@);
    }
    lemma_first_said(names, f, k);
    assert(r@.status == r.status);
}

/// An issue without any of the four state labels is open, whether GitHub says that it is open
/// or closed.
pub proof fn no_state_label_means_open(i: GhIssue, r: Task)
    requires
        call_ensures(GithubTaskSource::issue_to_task, (&i,), r),
        forall|j: int| 0 <= j < i.labels@.len() ==> !is_state_label((#[trigger] i.labels@[j]).name@),
    ensures
        r.status == TaskStatus::Open,
        github::issue_task(i).status == TaskStatus::Open,
{
    let names = github::label_names(i.labels@);
    let f = |n: Seq<char>| github::said_status(n);
    assert forall|j: int| 0 <= j < names.len() implies f(#[trigger] names[j]) is None by {
        assert(names[j] == i.labels@[j].name@);
    }
    lemma_none_said(names, f);
    assert(r@.status == r.status);
}

/// Whether a label says no priority: it does not begin with `priority/`, or nothing follows, or
/// what follows is no number, or is one above 255.
pub open spec fn no_priority(name: Seq<char>) -> bool {
    ||| !"priority/"@.is_prefix_of(name)
    ||| name.len() == 9
    ||| exists|c: int|
        9 <= c < name.len() && !('0' <= #[trigger] name[c] <= '9') && (c > 9 || name[c] != '+')
    ||| exists|n: nat| n > 255 && name == "priority/"@ + #[trigger] text::decimal_text(n)
}

proof fn lemma_no_priority(name: Seq<char>)
    requires
        no_priority(name),
    ensures
        github::said_priority(name) is None,
{
    reveal_strlit("priority/");
    if "priority/"@.is_prefix_of(name) {
        let t = name.skip(9);
        let d = number::unsigned_digits(t);
        if exists|c: int|
            9 <= c < name.len() && !('0' <= #[trigger] name[c] <= '9') && (c > 9 || name[c]
                != '+') {
            let c = choose|c: int|
                9 <= c < name.len() && !('0' <= #[trigger] name[c] <= '9') && (c > 9 || name[c]
                    != '+');
            assert(t[c - 9] == name[c]);
            if t[0] == '+' {
                assert(d[c - 10] == name[c]);
                assert(!number::ascii_digit(d[c - 10]));
            } else {
                assert(d[c - 9] == name[c]);
                assert(!number::ascii_digit(d[c - 9]));
            }
        } else if name.len() > 9 {
            let n = choose|n: nat| n > 255 && name == "priority/"@ + #[trigger] text::decimal_text(n);
            text_laws::lemma_decimal_value(n);
            assert(t =~= text::decimal_text(n));
            assert(number::ascii_digit(t[0]));
        }
    }
}

/// The first of an issue's labels that is `priority/` and a number up to 255 says the priority
/// of its task; labels before it that say none are passed over.
pub proof fn first_priority_label_decides(i: GhIssue, r: Task, k: int, p: u8)
    requires
        call_ensures(GithubTaskSource::issue_to_task, (&i,), r),
        0 <= k < i.labels@.len(),
        i.labels@[k].name@ == "priority/"@ + text::decimal_text(p as nat),
        forall|j: int| 0 <= j < k ==> no_priority((#[trigger] i.labels@[j]).name@),
    ensures
        r.priority == p,
{
    reveal_strlit("priority/");
    let names = github::label_names(i.labels@);
    let f = |n: Seq<char>| github::said_priority(n);
    let name = names[k];
    assert(name == i.labels@[k].name@);
    text_laws::lemma_decimal_value(p as nat);
    assert("priority/"@.is_prefix_of(name)) by {
        assert(name.take(9) =~= "priority/"@);
    }
    let t = text::decimal_text(p as nat);
    assert(name.skip(9) =~= t);
    assert(number::ascii_digit(t[0]));
    assert(f(name) == Some(p));
    assert forall|j: int| 0 <= j < k implies f(#[trigger] names[j]) is None by {
        assert(names[j] == i.labels@[j].name@);
        lemma_no_priority(names[j]);
    }
    lemma_first_said(names, f, k);
    assert(r@.priority == r.priority);
}

/// An issue whose labels say no priority has priority 3.
pub proof fn no_priority_label_means_three(i: GhIssue, r: Task)
    requires
        call_ensures(GithubTaskSource::issue_to_task, (&i,), r),
        forall|j: int| 0 <= j < i.labels@.len() ==> no_priority((#[trigger] i.labels@[j]).name@),
    ensures
        r.priority == 3,
{
    let names = github::label_names(i.labels@);
    let f = |n: Seq<char>| github::said_priority(n);
    assert forall|j: int| 0 <= j < names.len() implies f(#[trigger] names[j]) is None by {
        assert(names[j] == i.labels@[j].name@);
        lemma_no_priority(names[j]);
    }
    lemma_none_said(names, f);
    assert(r@.priority == r.priority);
}

/// The first of an issue's labels that begins with `loop/` says the loop of its task: what
/// follows, even where the metadata in the body names another.
pub proof fn first_loop_label_decides(i: GhIssue, r: Task, k: int, l: Seq<char>)
    requires
        call_ensures(GithubTaskSource::issue_to_task, (&i,), r),
        0 <= k < i.labels@.len(),
        i.labels@[k].name@ == "loop/"@ + l,
        forall|j: int|
            0 <= j < k ==> !"loop/"@.is_prefix_of((#[trigger] i.labels@[j]).name@),
    ensures
        r@.loop_id == Some(l),
{
    reveal_strlit("loop/");
    let names = github::label_names(i.labels@);
    let f = |n: Seq<char>| github::said_loop(n);
    let name = names[k];
    assert(name == i.labels@[k].name@);
    assert("loop/"@.is_prefix_of(name)) by {
        assert(name.take(5) =~= "loop/"@);
    }
    assert(name.skip(5) =~= l);
    assert forall|j: int| 0 <= j < k implies f(#[trigger] names[j]) is None by {
        assert(names[j] == i.labels@[j].name@);
    }
    lemma_first_said(names, f, k);
}

/// Accepts the labels that do not begin with `status/`, `priority/` or `loop/`.
pub open spec fn own_label() -> spec_fn(Seq<char>) -> bool {
    |n: Seq<char>|
        !"status/"@.is_prefix_of(n) && !"priority/"@.is_prefix_of(n) && !"loop/"@.is_prefix_of(n)
}

/// What an issue says outside its labels and its metadata, its task says too: the number as
/// identifier, the title, the time of creation, and the time at which the issue was closed
/// where there is one. A body that holds a comment with metadata gives the key, the blockers,
/// the time of the start, the loop where no label names one, and the time of the end where
/// GitHub gives none; without a key in it the number is the key. What the body shows without
/// comments is the description, and an empty one is none.
pub proof fn issue_fields_become_task_fields(i: GhIssue, r: Task)
    requires
        call_ensures(GithubTaskSource::issue_to_task, (&i,), r),
    ensures
        ({
            let number = text::decimal_text(i.number as nat);
            let body = match i.body {
                Some(b) => b@,
                None => Seq::<char>::empty(),
            };
            let m = metadata::parsed(body);
            let shown = metadata::stripped(body);
            &&& r.id@ == number
            &&& r.title@ == i.title@
            &&& r.created@ == i.created_at@
            &&& i.closed_at matches Some(c) ==> r@.closed == Some(c@)
            &&& i.closed_at is None ==> r@.closed == m.closed
            &&& m.key matches Some(k) ==> r@.key == Some(k)
            &&& m.key is None ==> r@.key == Some(number)
            &&& r@.blocked_by == m.blocked_by
            &&& r@.started == m.started
            &&& (forall|j: int|
                0 <= j < i.labels@.len() ==> !"loop/"@.is_prefix_of(
                    (#[trigger] i.labels@[j]).name@,
                )) ==> r@.loop_id == m.loop_id
            &&& shown.len() > 0 ==> r@.description == Some(shown)
            &&& shown.len() == 0 ==> r@.description is None
        }),
{
    crate::query_laws::views_show_every_field(r);
    let body = match i.body {
        Some(b) => b@,
        None => Seq::<char>::empty(),
    };
    assert(github::issue_body(i) =~= body);
    if forall|j: int|
        0 <= j < i.labels@.len() ==> !"loop/"@.is_prefix_of((#[trigger] i.labels@[j]).name@) {
        let names = github::label_names(i.labels@);
        let f = |n: Seq<char>| github::said_loop(n);
        assert forall|j: int| 0 <= j < names.len() implies f(#[trigger] names[j]) is None by {
            assert(names[j] == i.labels@[j].name@);
        }
        lemma_none_said(names, f);
    }
}

/// The task of an issue names, in this order, those who the issue is assigned to, its milestone
/// and the labels that are not the source's own, as far as there are any, and nothing else.
pub proof fn issue_extras_become_metadata(i: GhIssue, r: Task)
    requires
        call_ensures(GithubTaskSource::issue_to_task, (&i,), r),
    ensures
        ({
            let users = i.assignees@.map_values(|u: GhUser| u.login@);
            let own = i.labels@.map_values(|l: Label| l.name@).filter(own_label());
            let a: Seq<(Seq<char>, MetaView)> = if users.len() > 0 {
                seq![("assignees"@, MetaView::List(users))]
            } else {
                seq![]
            };
            let b: Seq<(Seq<char>, MetaView)> = match i.milestone {
                Some(m) => seq![("milestone"@, MetaView::Text(m.title@))],
                None => seq![],
            };
            let c: Seq<(Seq<char>, MetaView)> = if own.len() > 0 {
                seq![("user_labels"@, MetaView::List(own))]
            } else {
                seq![]
            };
            r@.metadata == a + b + c
        }),
{
    assert(own_label() =~= github::user_label());
    assert(i.labels@.map_values(|l: Label| l.name@) =~= github::label_names(i.labels@));
    assert(i.assignees@.map_values(|u: GhUser| u.login@) =~= github::logins(i.assignees@));
}

} // verus!
