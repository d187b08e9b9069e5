//! What the lines of a task file hold, and what changes make of the tasks in it.

use crate::change_laws;
use crate::clock;
use crate::clock::Instant;
use crate::config::ConnectorConfig;
use crate::json;
use crate::pattern;
use crate::query_laws;
use crate::task;
use crate::task::{Task, TaskStatus, TaskView};
use crate::task_sources::jsonl;
use crate::task_sources::jsonl::{
    file_content, task_lines, tasks_of_lines, JsonlTaskSource, Mutation,
};
use crate::text;
use crate::text_laws;
use vstd::prelude::*;
use vstd::string::*;

verus! {

/// Whether a line can be stored: it is not blank, has no line feed in it and no carriage return
/// at its end.
pub open spec fn fits_a_line(l: Seq<char>) -> bool {
    !text_laws::blank(l) && !l.contains('\n') && l.last() != '\r'
}

proof fn lemma_fits_a_line(l: Seq<char>)
    requires
        fits_a_line(l),
    ensures
        jsonl::storable(l),
{
    text_laws::lemma_core(l);
}

/// Lines that were written to a file are read back from it, all of them and in order; the file
/// holds each with a line feed behind it.
pub proof fn stored_lines_are_read_back(
    lines: Vec<String>,
    text: String,
    t: &str,
    back: Vec<String>,
)
    requires
        call_ensures(file_content, (&lines,), text),
        t@ == text@,
        call_ensures(task_lines, (t,), back),
        forall|i: int| 0 <= i < lines@.len() ==> fits_a_line((#[trigger] lines@[i])@),
    ensures
        back@.len() == lines@.len(),
        forall|i: int| 0 <= i < back@.len() ==> (#[trigger] back@[i])@ == lines@[i]@,
        lines@.len() == 0 ==> text@.len() == 0,
        lines@.len() > 0 ==> text@ == text::joined(pattern::texts(lines@), seq!['\n']) + seq!['\n'],
{
    reveal_strlit("\n");
    assert("\n"@ =~= seq!['\n']);
    let s = pattern::texts(lines@);
    assert forall|i: int| 0 <= i < s.len() implies jsonl::storable(#[trigger] s[i]) by {
        assert(s[i] == lines@[i]@);
        lemma_fits_a_line(s[i]);
    }
    jsonl::written_lines_read_back(s);
    let b = pattern::texts(back@);
    assert(b.len() == back@.len() && s.len() == lines@.len());
    assert forall|i: int| 0 <= i < back@.len() implies (#[trigger] back@[i])@ == lines@[i]@ by {
        assert(b[i] == back@[i]@ && s[i] == lines@[i]@);
    }
    if lines@.len() > 0 {
        jsonl::lemma_ended_front(s);
    }
}

/// The lines of a file are its first line, without the carriage return at its end, and the
/// lines of the rest; blank ones are passed over. A last line needs no line feed.
pub proof fn files_are_read_line_by_line(
    a: Seq<char>,
    b: Seq<char>,
    whole: &str,
    rest: &str,
    r: Vec<String>,
    more: Vec<String>,
)
    requires
        !a.contains('\n'),
        whole@ == a + seq!['\n'] + b,
        rest@ == b,
        call_ensures(task_lines, (whole,), r),
        call_ensures(task_lines, (rest,), more),
    ensures
        ({
            let line = if a.len() > 0 && a.last() == '\r' {
                a.take(a.len() - 1)
            } else {
                a
            };
            &&& text_laws::blank(line) ==> pattern::texts(r@) == pattern::texts(more@)
            &&& !text_laws::blank(line) ==> pattern::texts(r@) == seq![line] + pattern::texts(more@)
        }),
        !b.contains('\n') ==> pattern::texts(more@) == if text_laws::blank(b) {
            Seq::<Seq<char>>::empty()
        } else {
            seq![b]
        },
{
    let line = jsonl::without_return(a);
    let s = whole@;
    s.index_of_first_ensures('\n');
    assert(s[a.len() as int] == '\n');
    let i = s.index_of_first('\n')->0;
    if i < a.len() {
        assert(a[i] == '\n');
    }
    assert(i == a.len());
    assert(s.take(i) =~= a);
    assert(s.skip(i + 1) =~= b);
    assert(jsonl::lines_of(s) == seq![line] + jsonl::lines_of(b));
    jsonl::lemma_filter_front(line, jsonl::lines_of(b), jsonl::not_blank());
    text_laws::lemma_core(line);
    if a.len() > 0 {
        assert(a.drop_last() =~= a.take(a.len() - 1));
    }
    if !b.contains('\n') {
        b.index_of_first_ensures('\n');
        text_laws::lemma_core(b);
        let none = Seq::<Seq<char>>::empty();
        reveal(Seq::filter);
        if b.len() == 0 {
            assert(jsonl::lines_of(b) =~= none);
            assert(none.filter(jsonl::not_blank()) =~= none);
        } else {
            assert(jsonl::lines_of(b) =~= seq![b]);
            assert(seq![b].drop_last() =~= none);
            assert(none.filter(jsonl::not_blank()) =~= none);
            assert(jsonl::stored_lines(b) =~= if text_laws::blank(b) {
                none
            } else {
                seq![b]
            });
        }
    }
}

pub(crate) proof fn lemma_well_formed(parsed: Seq<Option<Task>>)
    ensures
        jsonl::well_formed(parsed) == parsed.filter(|o: Option<Task>| o is Some).map_values(
            |o: Option<Task>| o->0@,
        ),
    decreases parsed.len(),
{
    let p = |o: Option<Task>| o is Some;
    let f = |o: Option<Task>| o->0@;
    reveal(Seq::filter);
    if parsed.len() > 0 {
        lemma_well_formed(parsed.drop_last());
        let kept = parsed.drop_last().filter(p);
        if parsed.last() is Some {
            assert(kept.push(parsed.last()).map_values(f) =~= kept.map_values(f).push(
                parsed.last()->0@,
            ));
        }
    }
    assert(jsonl::well_formed(parsed) =~= parsed.filter(p).map_values(f));
}

/// The tasks of a file are those of its lines that hold one, in order; the others are passed
/// over.
pub proof fn malformed_lines_are_passed_over(parsed: Vec<Option<Task>>, r: Vec<Task>)
    requires
        call_ensures(tasks_of_lines, (&parsed,), r),
    ensures
        task::views(r@) == parsed@.filter(|o: Option<Task>| o is Some).map_values(
            |o: Option<Task>| o->0@,
        ),
{
    lemma_well_formed(parsed@);
}

proof fn lemma_last_value(ms: Seq<(Seq<char>, Seq<char>)>, name: Seq<char>, i: int)
    requires
        0 <= i < ms.len(),
        ms[i].0 == name,
        forall|j: int| i < j < ms.len() ==> (#[trigger] ms[j]).0 != name,
    ensures
        jsonl::last_value(ms, name) == Some(ms[i].1),
    decreases ms.len(),
{
    if i < ms.len() - 1 {
        assert(ms[ms.len() - 1].0 != name);
        let front = ms.drop_last();
        assert forall|j: int| i < j < front.len() implies (#[trigger] front[j]).0 != name by {
            assert(front[j] == ms[j]);
        }
        lemma_last_value(front, name, i);
    }
}

proof fn lemma_no_value(ms: Seq<(Seq<char>, Seq<char>)>, name: Seq<char>)
    requires
        forall|j: int| 0 <= j < ms.len() ==> (#[trigger] ms[j]).0 != name,
    ensures
        jsonl::last_value(ms, name) is None,
    decreases ms.len(),
{
    if ms.len() > 0 {
        assert(ms[ms.len() - 1].0 != name);
        let front = ms.drop_last();
        assert forall|j: int| 0 <= j < front.len() implies (#[trigger] front[j]).0 != name by {
            assert(front[j] == ms[j]);
        }
        lemma_no_value(front, name);
    }
}

/// The usual file below a workspace.
pub open spec fn usual_file(root: Seq<char>) -> Seq<char> {
    if root.len() == 0 || root.last() == '/' {
        root + ".ralph/agent/tasks.jsonl"@
    } else {
        root + seq!['/'] + ".ralph/agent/tasks.jsonl"@
    }
}

/// Tasks are kept in the file that the last `path` of the configuration names as a string, and
/// in the usual file below the workspace where it names none that way.
pub proof fn configurations_name_the_file(
    c: ConnectorConfig,
    root: &str,
    ms: Seq<(Seq<char>, Seq<char>)>,
    i: int,
    r: String,
)
    requires
        call_ensures(JsonlTaskSource::path_from_config, (&c, root), r),
    ensures
        c is Null ==> r@ == usual_file(root@),
        c matches ConnectorConfig::Json(t) ==> {
            &&& json::object_members(t@) is None ==> r@ == usual_file(root@)
            &&& json::object_members(t@) == Some(ms) && (forall|j: int|
                0 <= j < ms.len() ==> (#[trigger] ms[j]).0 != "path"@) ==> r@ == usual_file(root@)
            &&& json::object_members(t@) == Some(ms) && 0 <= i < ms.len() && ms[i].0 == "path"@ && (
            forall|j: int| i < j < ms.len() ==> (#[trigger] ms[j]).0 != "path"@) ==> (
            json::json_optional_string(ms[i].1) matches Some(Some(p)) ==> r@ == p) && (!(
            json::json_optional_string(ms[i].1) matches Some(Some(p))) ==> r@ == usual_file(root@))
        },
{
    if let ConnectorConfig::Json(t) = c {
        if json::object_members(t@) == Some(ms) {
            if forall|j: int| 0 <= j < ms.len() ==> (#[trigger] ms[j]).0 != "path"@ {
                lemma_no_value(ms, "path"@);
            }
            if 0 <= i < ms.len() && ms[i].0 == "path"@ && (forall|j: int|
                i < j < ms.len() ==> (#[trigger] ms[j]).0 != "path"@) {
                lemma_last_value(ms, "path"@, i);
            }
        }
    }
}

/// A change is made to the tasks as they were read, not to those in memory: it closes, starts,
/// fails or reopens the first task with the identifier, at the given time, and leaves all other
/// tasks as they are; it adds a task behind all others.
pub proof fn changes_are_made_to_what_was_read(
    source: &mut JsonlTaskSource,
    stored: Vec<Task>,
    m: Mutation,
    at: Instant,
    r: Option<Task>,
    i: int,
)
    requires
        call_ensures(JsonlTaskSource::mutate, (source, stored, m, at), r),
    ensures
        ({
            let s = task::views(stored@);
            let stamp = clock::rfc3339_text(at.seconds, at.nanos);
            let after = final(source).held();
            &&& m matches Mutation::Close(id) ==> query_laws::first_with_id(s, id@, i) ==> after
                == s.update(
                i,
                TaskView { status: TaskStatus::Closed, closed: Some(stamp), ..s[i] },
            ) && task::opt_view(r) == Some(after[i])
            &&& m matches Mutation::Fail(id) ==> query_laws::first_with_id(s, id@, i) ==> after
                == s.update(
                i,
                TaskView { status: TaskStatus::Failed, closed: Some(stamp), ..s[i] },
            ) && task::opt_view(r) == Some(after[i])
            &&& m matches Mutation::Start(id) ==> query_laws::first_with_id(s, id@, i) ==> after
                == s.update(
                i,
                TaskView { status: TaskStatus::InProgress, started: Some(stamp), ..s[i] },
            ) && task::opt_view(r) == Some(after[i])
            &&& m matches Mutation::Reopen(id) ==> query_laws::first_with_id(s, id@, i) ==> after
                == s.update(
                i,
                TaskView { status: TaskStatus::Open, closed: None, ..s[i] },
            ) && task::opt_view(r) == Some(after[i])
            &&& m matches Mutation::Add(t) ==> after == s.push(t@) && task::opt_view(r) == Some(t@)
            &&& final(source).filter() == old(source).filter()
            &&& final(source).file() == old(source).file()
        }),
{
    let s = task::views(stored@);
    let stamp = clock::stamp_of(at);
    match m {
        Mutation::Close(id) => {
            if query_laws::first_with_id(s, id@, i) {
                change_laws::state_changes_set_state_and_time(s, id@, stamp, i);
            }
        },
        Mutation::Fail(id) => {
            if query_laws::first_with_id(s, id@, i) {
                change_laws::state_changes_set_state_and_time(s, id@, stamp, i);
            }
        },
        Mutation::Start(id) => {
            if query_laws::first_with_id(s, id@, i) {
                change_laws::state_changes_set_state_and_time(s, id@, stamp, i);
            }
        },
        Mutation::Reopen(id) => {
            if query_laws::first_with_id(s, id@, i) {
                change_laws::state_changes_set_state_and_time(s, id@, stamp, i);
            }
        },
        _ => {},
    }
}

/// Ensuring a task updates the first task that was read with its key, where there is one: the
/// new title and priority, and the new description and blockers where there are any.
pub proof fn ensuring_updates_what_was_read(
    source: &mut JsonlTaskSource,
    stored: Vec<Task>,
    t: Task,
    at: Instant,
    r: Option<Task>,
    key: Seq<char>,
    i: int,
)
    requires
        call_ensures(JsonlTaskSource::mutate, (source, stored, Mutation::Ensure(t), at), r),
        t@.key == Some(key),
        0 <= i < stored@.len(),
        stored@[i]@.key == Some(key),
        forall|j: int| 0 <= j < i ==> (#[trigger] stored@[j])@.key != Some(key),
    ensures
        ({
            let x = final(source).held()[i];
            &&& final(source).held() == task::views(stored@).update(i, x)
            &&& r is Some && r->0@ == x
            &&& x.title == t@.title
            &&& x.priority == t@.priority
            &&& t@.description is Some ==> x.description == t@.description
            &&& t@.blocked_by.len() > 0 ==> x.blocked_by == t@.blocked_by
            &&& x.status == stored@[i]@.status
            &&& x.id == stored@[i]@.id
        }),
{
    let s = task::views(stored@);
    assert(s[i] == stored@[i]@);
    assert forall|j: int| 0 <= j < i implies (#[trigger] s[j]).key != Some(key) by {
        assert(s[j] == stored@[j]@);
    }
    change_laws::ensuring_updates_the_keyed_task(s, t@, key, i);
    assert(final(source).held() =~= s.update(i, final(source).held()[i]));
}

} // verus!
