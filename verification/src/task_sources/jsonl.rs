//! Task source on a JSONL file: one task per line.
//!
//! Every change is applied to the tasks as they are read from the file under an exclusive
//! lock, and all tasks are written back, so that loops that run side by side lose nothing.

use crate::clock;
use crate::clock::Instant;
use crate::config;
use crate::config::ConnectorConfig;
use crate::json;
use crate::json::{json_read_optional_string, read_members};
use crate::pattern;
use crate::task;
use crate::task::{Task, TaskView};
use crate::task_list;
use crate::task_list::{
    add_task, close_task, ensure_task, fail_task, open_tasks, pending_tasks, ready_tasks,
    reopen_task, start_task, task_by_id, task_by_key, tasks_in_loop, Change,
};
use crate::task_source;
use crate::task_source::TaskSourceResult;
use crate::text;
use crate::text::{chars_of, join, join_path, same_text, string_of, trim};
use vstd::prelude::*;
use vstd::string::*;

verus! {

/// A line without the carriage return that its line feed may have come with.
pub open spec fn without_return(line: Seq<char>) -> Seq<char> {
    if line.len() > 0 && line.last() == '\r' {
        line.drop_last()
    } else {
        line
    }
}

/// The lines of a text. A line feed ends a line, with a carriage return before it or
/// without; behind the last one there is a line only where there is text.
pub open spec fn lines_of(s: Seq<char>) -> Seq<Seq<char>>
    decreases s.len(),
{
    if s.len() == 0 {
        seq![]
    } else {
        match s.index_of_first('\n') {
            Some(i) => if 0 <= i < s.len() {
                seq![without_return(s.take(i))] + lines_of(s.skip(i + 1))
            } else {
                seq![]
            },
            None => seq![s],
        }
    }
}

/// Accepts the lines that hold more than white space.
pub open spec fn not_blank() -> spec_fn(Seq<char>) -> bool {
    |l: Seq<char>| text::trimmed(l).len() > 0
}

/// The lines of a file that may hold tasks.
pub open spec fn stored_lines(content: Seq<char>) -> Seq<Seq<char>> {
    lines_of(content).filter(not_blank())
}

/// The contents of a file with the given lines: each with a line feed behind it.
pub open spec fn file_text(lines: Seq<Seq<char>>) -> Seq<char> {
    let content = text::joined(lines, "\n"@);
    if content.len() == 0 {
        seq![]
    } else {
        content + "\n"@
    }
}

/// How a filter goes on behind its first item.
pub(crate) proof fn lemma_filter_front(l: Seq<char>, rest: Seq<Seq<char>>, p: spec_fn(Seq<char>) -> bool)
    ensures
        (seq![l] + rest).filter(p) == if p(l) {
            seq![l] + rest.filter(p)
        } else {
            rest.filter(p)
        },
    decreases rest.len(),
{
    reveal(Seq::filter);
    let all = seq![l] + rest;
    if rest.len() == 0 {
        assert(all.drop_last() =~= Seq::<Seq<char>>::empty());
        assert(all.last() == l);
        assert(Seq::<Seq<char>>::empty().filter(p) =~= Seq::<Seq<char>>::empty());
        assert(rest.filter(p) =~= Seq::<Seq<char>>::empty());
        assert(seq![l] + rest.filter(p) =~= seq![l]);
        assert(all.filter(p) =~= if p(l) {
            seq![l]
        } else {
            seq![]
        });
    } else {
        lemma_filter_front(l, rest.drop_last(), p);
        assert(all.drop_last() =~= seq![l] + rest.drop_last());
        assert(all.last() == rest.last());
        assert(all.filter(p) =~= if p(l) {
            seq![l] + rest.filter(p)
        } else {
            rest.filter(p)
        });
    }
}

/// The lines of a file that may hold tasks: those that hold more than white space.
pub fn task_lines(content: &str) -> (r: Vec<String>)
    ensures
        pattern::texts(r@) == stored_lines(content@),
{
    let v = chars_of(content);
    let ghost s = content@;
    let ghost p = not_blank();
    let mut out: Vec<String> = Vec::new();
    let mut from: usize = 0;
    assert(s.skip(0) =~= s);
    assert(pattern::texts(out@) =~= seq![]);
    assert(seq![] + stored_lines(s) =~= stored_lines(s));
    while from < v.len()
        invariant
            from <= v@.len(),
            v@ == s,
            s == content@,
            p == not_blank(),
            pattern::texts(out@) + stored_lines(s.skip(from as int)) == stored_lines(s),
        decreases v@.len() - from,
    {
        let ghost before = out@;
        let ghost rest = s.skip(from as int);
        let mut to: usize = from;
        while to < v.len() && v[to] != '\n'
            invariant
                from <= to <= v@.len(),
                v@ == s,
                forall|j: int| from <= j < to ==> s[j] != '\n',
            decreases v@.len() - to,
        {
            to = to + 1;
        }
        let ended: bool = to < v.len();
        let end: usize = if ended && to > from && v[to - 1] == '\r' {
            to - 1
        } else {
            to
        };
        let line = string_of(&v, from, end);
        let next: usize = if ended {
            to + 1
        } else {
            to
        };
        proof {
            rest.index_of_first_ensures('\n');
            if ended {
                assert(rest[to - from] == '\n');
                assert forall|j: int| 0 <= j < to - from implies rest[j] != '\n' by {
                    assert(rest[j] == s[from + j]);
                }
                assert(rest.index_of_first('\n') == Some(to - from));
                assert(rest.take(to - from) =~= s.subrange(from as int, to as int));
                assert(without_return(rest.take(to - from)) =~= line@);
                assert(rest.skip(to - from + 1) =~= s.skip(next as int));
            } else {
                assert forall|j: int| 0 <= j < rest.len() implies rest[j] != '\n' by {
                    assert(rest[j] == s[from + j]);
                }
                assert(rest =~= line@);
                assert(s.skip(next as int) =~= Seq::<char>::empty());
                assert(lines_of(rest) =~= seq![line@] + lines_of(s.skip(next as int)));
            }
            lemma_filter_front(line@, lines_of(s.skip(next as int)), p);
        }
        if !trim(line.as_str()).as_str().is_empty() {
            out.push(line);
            assert(pattern::texts(out@) =~= pattern::texts(before).push(line@));
            assert(pattern::texts(out@) + stored_lines(s.skip(next as int)) =~= pattern::texts(
                before,
            ) + (seq![line@] + stored_lines(s.skip(next as int))));
        }
        from = next;
    }
    proof {
        reveal(Seq::filter);
        assert(s.skip(from as int) =~= Seq::<char>::empty());
        assert(stored_lines(s.skip(from as int)) =~= seq![]);
        assert(pattern::texts(out@) + seq![] =~= pattern::texts(out@));
    }
    out
}

/// The contents of a file that holds the given lines.
pub fn file_content(lines: &Vec<String>) -> (r: String)
    ensures
        r@ == file_text(pattern::texts(lines@)),
{
    let mut content = join(lines, "\n");
    if content.as_str().is_empty() {
        String::new()
    } else {
        content.append("\n");
        content
    }
}

/// Whether a line can be told apart from its neighbours when it is read back: it holds more
/// than white space, no line feed, and no carriage return at its end.
pub open spec fn storable(l: Seq<char>) -> bool {
    text::trimmed(l).len() > 0 && !l.contains('\n') && (l.len() > 0 ==> l.last() != '\r')
}

/// Lines, each with a line feed behind it.
pub open spec fn ended_lines(lines: Seq<Seq<char>>) -> Seq<char>
    decreases lines.len(),
{
    if lines.len() == 0 {
        seq![]
    } else {
        lines[0] + "\n"@ + ended_lines(lines.skip(1))
    }
}

proof fn lemma_ended_lines(lines: Seq<Seq<char>>)
    requires
        lines.len() > 0,
    ensures
        text::joined(lines, "\n"@) + "\n"@ == ended_lines(lines.drop_last()) + lines.last() + "\n"@,
    decreases lines.len(),
{
    if lines.len() == 1 {
        assert(ended_lines(lines.drop_last()) =~= seq![]);
        assert(text::joined(lines, "\n"@) == lines[0]);
        assert(text::joined(lines, "\n"@) + "\n"@ =~= ended_lines(lines.drop_last()) + lines.last()
            + "\n"@);
    } else {
        lemma_ended_lines(lines.drop_last());
        lemma_ended_push(lines.drop_last().drop_last(), lines.drop_last().last());
        assert(lines.drop_last() =~= lines.drop_last().drop_last().push(lines.drop_last().last()));
        assert(text::joined(lines, "\n"@) + "\n"@ =~= (text::joined(lines.drop_last(), "\n"@)
            + "\n"@) + lines.last() + "\n"@);
    }
}

proof fn lemma_ended_push(lines: Seq<Seq<char>>, l: Seq<char>)
    ensures
        ended_lines(lines.push(l)) == ended_lines(lines) + l + "\n"@,
    decreases lines.len(),
{
    if lines.len() == 0 {
        assert(lines.push(l).skip(1) =~= lines);
        assert(lines.push(l)[0] == l);
        assert(ended_lines(lines) =~= seq![]);
        assert(ended_lines(lines.push(l)) =~= ended_lines(lines) + l + "\n"@);
    } else {
        lemma_ended_push(lines.skip(1), l);
        assert(lines.push(l).skip(1) =~= lines.skip(1).push(l));
        assert(ended_lines(lines.push(l)) =~= ended_lines(lines) + l + "\n"@);
    }
}

proof fn lemma_lines_of_ended(lines: Seq<Seq<char>>)
    requires
        forall|i: int| 0 <= i < lines.len() ==> storable(#[trigger] lines[i]),
    ensures
        lines_of(ended_lines(lines)) == lines,
    decreases lines.len(),
{
    reveal_strlit("\n");
    let s = ended_lines(lines);
    if lines.len() == 0 {
        assert(lines_of(s) =~= lines);
    } else {
        let l = lines[0];
        let rest = lines.skip(1);
        assert(storable(l));
        lemma_lines_of_ended(rest);
        s.index_of_first_ensures('\n');
        assert(s[l.len() as int] == '\n');
        assert forall|j: int| 0 <= j < l.len() implies s[j] != '\n' by {
            assert(s[j] == l[j]);
            assert(l.contains(l[j]));
        }
        assert(s.index_of_first('\n') == Some(l.len() as int));
        assert(s.take(l.len() as int) =~= l);
        assert(s.skip(l.len() as int + 1) =~= ended_lines(rest));
        assert(without_return(l) == l);
        assert(lines_of(s) == seq![l] + rest);
        assert(seq![l] + rest =~= lines);
    }
}

/// A filter that accepts every line leaves the lines as they are.
proof fn lemma_all_kept(lines: Seq<Seq<char>>)
    requires
        forall|i: int| 0 <= i < lines.len() ==> storable(#[trigger] lines[i]),
    ensures
        lines.filter(not_blank()) == lines,
    decreases lines.len(),
{
    reveal(Seq::filter);
    if lines.len() > 0 {
        assert(storable(lines[lines.len() - 1]));
        lemma_all_kept(lines.drop_last());
        assert(lines.drop_last().push(lines.last()) =~= lines);
    } else {
        assert(lines.filter(not_blank()) =~= lines);
    }
}

/// What is written to a file is one line after the other, each with a line feed behind it, and
/// is read back from it line by line.
pub proof fn written_lines_read_back(lines: Seq<Seq<char>>)
    requires
        forall|i: int| 0 <= i < lines.len() ==> storable(#[trigger] lines[i]),
    ensures
        file_text(lines) == ended_lines(lines),
        lines_of(file_text(lines)) == lines,
        stored_lines(file_text(lines)) == lines,
{
    reveal_strlit("\n");
    if lines.len() == 0 {
        reveal(Seq::filter);
        assert(file_text(lines) =~= seq![]);
        assert(lines_of(file_text(lines)) =~= lines);
        assert(stored_lines(file_text(lines)) =~= lines);
    } else {
        lemma_ended_lines(lines);
        lemma_ended_push(lines.drop_last(), lines.last());
        assert(lines.drop_last().push(lines.last()) =~= lines);
        assert(storable(lines.last()));
        assert(lines.last().len() > 0) by {
            if lines.last().len() == 0 {
                assert(text::trimmed(lines.last()).len() == 0);
            }
        }
        let content = text::joined(lines, "\n"@);
        assert(content.len() > 0) by {
            assert((content + "\n"@).len() == content.len() + 1);
            assert((ended_lines(lines.drop_last()) + lines.last() + "\n"@).len() > 1);
        }
        assert(file_text(lines) == ended_lines(lines));
        lemma_lines_of_ended(lines);
        lemma_all_kept(lines);
    }
}

pub(crate) proof fn lemma_ended_front(lines: Seq<Seq<char>>)
    requires
        lines.len() > 0,
        forall|i: int| 0 <= i < lines.len() ==> storable(#[trigger] lines[i]),
    ensures
        file_text(lines) == text::joined(lines, "\n"@) + "\n"@,
{
    written_lines_read_back(lines);
    if text::joined(lines, "\n"@).len() == 0 {
        assert(lines_of(file_text(lines)).len() == 0);
    }
}

/// The tasks among what the lines of a file hold, with what is malformed left out.
pub open spec fn well_formed(parsed: Seq<Option<Task>>) -> Seq<TaskView>
    decreases parsed.len(),
{
    if parsed.len() == 0 {
        seq![]
    } else {
        let before = well_formed(parsed.drop_last());
        match parsed.last() {
            Some(t) => before.push(t@),
            None => before,
        }
    }
}

/// Whether `all` are the lines, in order, with others between them of which `other` holds.
pub open spec fn interspersed(
    all: Seq<Seq<char>>,
    lines: Seq<Seq<char>>,
    other: spec_fn(Seq<char>) -> bool,
) -> bool
    decreases all.len(),
{
    if all.len() == 0 {
        lines.len() == 0
    } else {
        ||| lines.len() > 0 && all.last() == lines.last() && interspersed(
            all.drop_last(),
            lines.drop_last(),
            other,
        )
        ||| other(all.last()) && interspersed(all.drop_last(), lines, other)
    }
}

/// Lines by themselves are interspersed with nothing.
pub proof fn lines_stand_alone(lines: Seq<Seq<char>>, other: spec_fn(Seq<char>) -> bool)
    ensures
        interspersed(lines, lines, other),
    decreases lines.len(),
{
    if lines.len() > 0 {
        lines_stand_alone(lines.drop_last(), other);
    }
}

/// The tasks that the lines of a file hold. A line that is no task is left out.
pub fn tasks_of_lines(parsed: &Vec<Option<Task>>) -> (r: Vec<Task>)
    ensures
        task::views(r@) == well_formed(parsed@),
{
    let mut out: Vec<Task> = Vec::new();
    let mut i: usize = 0;
    assert(task::views(out@) =~= well_formed(parsed@.take(0)));
    while i < parsed.len()
        invariant
            i <= parsed@.len(),
            task::views(out@) == well_formed(parsed@.take(i as int)),
        decreases parsed@.len() - i,
    {
        let ghost before = out@;
        assert(parsed@.take(i + 1).drop_last() =~= parsed@.take(i as int));
        match &parsed[i] {
            Some(t) => {
                let t = t.clone();
                out.push(t);
                assert(task::views(out@) =~= task::views(before).push(t@));
            },
            None => {},
        }
        i = i + 1;
    }
    assert(parsed@.take(i as int) =~= parsed@);
    out
}

/// The last member with a name.
pub open spec fn last_value(
    members: Seq<(Seq<char>, Seq<char>)>,
    name: Seq<char>,
) -> Option<Seq<char>>
    decreases members.len(),
{
    if members.len() == 0 {
        None
    } else if members.last().0 == name {
        Some(members.last().1)
    } else {
        last_value(members.drop_last(), name)
    }
}

/// The `path` that a configuration gives, where it is an object that gives one as a string.
pub open spec fn configured_path(config: Option<Seq<char>>) -> Option<Seq<char>> {
    match config {
        None => None,
        Some(t) => match json::object_members(t) {
            None => None,
            Some(members) => match last_value(members, "path"@) {
                None => None,
                Some(v) => match json::json_optional_string(v) {
                    Some(Some(p)) => Some(p),
                    _ => None,
                },
            },
        },
    }
}

/// The file that tasks are kept in: the configured one, or the usual one below the root of
/// the workspace.
pub open spec fn tasks_path(config: Option<Seq<char>>, root: Seq<char>) -> Seq<char> {
    match configured_path(config) {
        Some(p) => p,
        None => text::path_below(root, ".ralph/agent/tasks.jsonl"@),
    }
}

/// The last member with a name.
fn find_last<'a>(members: &'a Vec<(String, String)>, name: &str) -> (r: Option<&'a str>)
    ensures
        task_source::opt_str(r) == last_value(json::member_texts(members@), name@),
{
    let ghost ms = json::member_texts(members@);
    let mut i: usize = members.len();
    assert(ms.take(i as int) =~= ms);
    while i > 0
        invariant
            i <= members@.len(),
            ms == json::member_texts(members@),
            last_value(ms, name@) == last_value(ms.take(i as int), name@),
        decreases i,
    {
        i = i - 1;
        assert(ms.take(i + 1).drop_last() =~= ms.take(i as int));
        assert(ms.take(i + 1).last() == (members@[i as int].0@, members@[i as int].1@));
        if same_text(members[i].0.as_str(), name) {
            return Some(members[i].1.as_str());
        }
    }
    None
}

/// The `path` that a configuration gives.
fn path_in(config: &ConnectorConfig) -> (r: Option<String>)
    ensures
        json::opt_text(r) == configured_path(config::config_text(*config)),
{
    match config {
        ConnectorConfig::Null => None,
        ConnectorConfig::Json(t) => match read_members(t.as_str()) {
            None => None,
            Some(members) => match find_last(&members, "path") {
                None => None,
                Some(v) => match json_read_optional_string(v) {
                    Some(Some(p)) => Some(p),
                    _ => None,
                },
            },
        },
    }
}

/// A change to make.
#[derive(Debug, PartialEq)]
pub enum Mutation {
    /// Add a task.
    Add(Task),
    /// Mark the task with the identifier as done.
    Close(String),
    /// Mark the task with the identifier as in progress.
    Start(String),
    /// Mark the task with the identifier as failed.
    Fail(String),
    /// Mark the task with the identifier as open again.
    Reopen(String),
    /// Add the task, or bring the one with the same key up to date.
    Ensure(Task),
}

/// The change that a mutation is at a time.
pub open spec fn change_at(m: Mutation, t: Instant) -> Change {
    match m {
        Mutation::Add(x) => Change::Add(x@),
        Mutation::Close(id) => Change::Close(id@, clock::stamp_of(t)),
        Mutation::Start(id) => Change::Start(id@, clock::stamp_of(t)),
        Mutation::Fail(id) => Change::Fail(id@, clock::stamp_of(t)),
        Mutation::Reopen(id) => Change::Reopen(id@),
        Mutation::Ensure(x) => Change::Ensure(x@),
    }
}

/// Task source on a JSONL file.
#[derive(Debug)]
pub struct JsonlTaskSource {
    path: String,
    tasks: Vec<Task>,
    loop_filter: Option<String>,
}

impl JsonlTaskSource {
    /// The tasks in memory.
    pub open spec fn held(&self) -> Seq<TaskView> {
        task::views(self.values())
    }

    /// The tasks in memory, as values.
    pub closed spec fn values(&self) -> Seq<Task> {
        self.tasks@
    }

    /// The loop that queries are limited to.
    pub closed spec fn filter(&self) -> Option<Seq<char>> {
        json::opt_text(self.loop_filter)
    }

    /// The file that tasks are kept in.
    pub closed spec fn file(&self) -> Seq<char> {
        self.path@
    }

    /// The file that tasks are kept in under a configuration. Its `path` says which; without
    /// one it is `.ralph/agent/tasks.jsonl` below the root of the workspace.
    pub fn path_from_config(config: &ConnectorConfig, workspace_root: &str) -> (r: String)
        ensures
            r@ == tasks_path(config::config_text(*config), workspace_root@),
    {
        match path_in(config) {
            Some(p) => p,
            None => join_path(workspace_root, ".ralph/agent/tasks.jsonl"),
        }
    }

    /// A source from its configuration and the tasks that were read from its file.
    pub fn from_config(
        config: &ConnectorConfig,
        workspace_root: &str,
        stored: TaskSourceResult<Vec<Task>>,
    ) -> (r: TaskSourceResult<Self>)
        ensures
            match stored {
                Err(e) => r is Err && r->Err_0 == e,
                Ok(tasks) => {
                    &&& r is Ok
                    &&& r->Ok_0.held() == task::views(tasks@)
                    &&& r->Ok_0.filter() is None
                    &&& r->Ok_0.file() == tasks_path(
                        config::config_text(*config),
                        workspace_root@,
                    )
                },
            },
    {
        match stored {
            Err(e) => Err(e),
            Ok(tasks) => Ok(
                JsonlTaskSource {
                    path: JsonlTaskSource::path_from_config(config, workspace_root),
                    tasks,
                    loop_filter: None,
                },
            ),
        }
    }

    /// The file that tasks are kept in.
    pub fn path(&self) -> (r: &str)
        ensures
            r@ == self.file(),
    {
        self.path.as_str()
    }

    /// The tasks in memory, which a change leaves to be written to the file.
    pub fn tasks(&self) -> (r: &Vec<Task>)
        ensures
            r@ == self.values(),
            task::views(r@) == self.held(),
    {
        &self.tasks
    }

    /// Takes the tasks that were read from the file.
    pub fn refresh_with(&mut self, stored: Vec<Task>)
        ensures
            final(self).held() == task::views(stored@),
            final(self).filter() == old(self).filter(),
            final(self).file() == old(self).file(),
    {
        self.tasks = stored;
    }

    /// Makes a change at a time, to the tasks as they were read from the file. Returns the
    /// task that was changed or added; there is none where no task has the identifier.
    pub fn mutate(&mut self, stored: Vec<Task>, m: Mutation, t: Instant) -> (r: Option<Task>)
        requires
            t.is_valid(),
        ensures
            final(self).held() == task_list::applied(task::views(stored@), change_at(m, t)),
            task::opt_view(r) == task_list::replied(task::views(stored@), change_at(m, t)),
            final(self).filter() == old(self).filter(),
            final(self).file() == old(self).file(),
    {
        self.tasks = stored;
        match m {
            Mutation::Add(x) => Some(add_task(&mut self.tasks, x)),
            Mutation::Close(id) => close_task(&mut self.tasks, id.as_str(), t),
            Mutation::Start(id) => start_task(&mut self.tasks, id.as_str(), t),
            Mutation::Fail(id) => fail_task(&mut self.tasks, id.as_str(), t),
            Mutation::Reopen(id) => reopen_task(&mut self.tasks, id.as_str()),
            Mutation::Ensure(x) => Some(ensure_task(&mut self.tasks, x)),
        }
    }

    /// The tasks of the loop that queries are limited to.
    pub fn filtered_tasks(&self) -> (r: Vec<Task>)
        ensures
            task::views(r@) == task_list::scoped(self.held(), self.filter()),
    {
        tasks_in_loop(&self.tasks, &self.loop_filter)
    }

    /// Limits queries to a loop. `None` means all loops.
    pub fn set_loop_filter(&mut self, loop_id: Option<&str>)
        ensures
            final(self).held() == old(self).held(),
            final(self).filter() == task_source::opt_str(loop_id),
            final(self).file() == old(self).file(),
    {
        self.loop_filter = match loop_id {
            Some(l) => Some(l.to_string()),
            None => None,
        };
    }

    /// The task with the identifier.
    pub fn get(&self, id: &str) -> (r: TaskSourceResult<Option<Task>>)
        ensures
            r is Ok,
            task::opt_view(r->Ok_0) == task_list::by_id(self.held(), id@),
    {
        Ok(task_by_id(&self.tasks, id))
    }

    /// The task with the stable key.
    pub fn get_by_key(&self, key: &str) -> (r: TaskSourceResult<Option<Task>>)
        ensures
            r is Ok,
            task::opt_view(r->Ok_0) == task_list::by_key(self.held(), key@),
    {
        Ok(task_by_key(&self.tasks, key))
    }

    /// All tasks of the loop.
    pub fn all(&self) -> (r: TaskSourceResult<Vec<Task>>)
        ensures
            r is Ok,
            task::views(r->Ok_0@) == task_list::scoped(self.held(), self.filter()),
    {
        Ok(self.filtered_tasks())
    }

    /// The tasks that are not closed.
    pub fn open(&self) -> (r: TaskSourceResult<Vec<Task>>)
        ensures
            r is Ok,
            task::views(r->Ok_0@) == task_list::open_in(self.held(), self.filter()),
    {
        Ok(open_tasks(&self.filtered_tasks()))
    }

    /// The tasks that still need work.
    pub fn pending(&self) -> (r: TaskSourceResult<Vec<Task>>)
        ensures
            r is Ok,
            task::views(r->Ok_0@) == task_list::pending_in(self.held(), self.filter()),
    {
        Ok(pending_tasks(&self.filtered_tasks()))
    }

    /// The open tasks whose blockers are all closed or failed.
    pub fn ready(&self) -> (r: TaskSourceResult<Vec<Task>>)
        ensures
            r is Ok,
            task::views(r->Ok_0@) == task_list::ready_in(self.held(), self.filter()),
    {
        Ok(ready_tasks(&self.filtered_tasks()))
    }
}

} // verus!
