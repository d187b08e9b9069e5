//! The commands of the `task` namespace.
//!
//! - `add`: create a task
//! - `ensure`: create or reuse a keyed task
//! - `list`: list tasks
//! - `ready`: show unblocked tasks
//! - `start`: mark a task as in progress
//! - `close`: mark a task as complete
//! - `fail`: mark a task as failed
//! - `reopen`: reopen a closed or failed task
//! - `show`: show a single task

use crate::clock;
use crate::clock::{parse_rfc3339, Instant, DAY_SECONDS, MAX_SECONDS, MIN_SECONDS};
use crate::config::{ConnectorConfig, TaskSourceConfig};
use crate::config;
use crate::display;
use crate::display::{
    change_line, created_lines, ensured_lines, id_lines, list_lines, ready_lines, show_lines, Hue,
};
use crate::json;
use crate::ordering;
use crate::ordering::sort_tasks;
use crate::pattern;
use crate::task;
use crate::task::{MetaValue, MetaView, Task, TaskStatus, TaskView};
use crate::task_list;
use crate::task_source;
use crate::task_source::{ErrorView, TaskSource, TaskSourceError, TaskSourceResult};
use crate::task_source_registry;
use crate::task_source_registry::TaskSourceRegistry;
use crate::text;
use crate::text::{chars_of, glue, same_text, split_once, trim};
use vstd::prelude::*;
use vstd::string::*;

verus! {

/// How a command prints what it found.
#[derive(Debug, Clone, Copy, PartialEq, Eq, Structural)]
pub enum OutputFormat {
    /// A table for people.
    Table,
    /// JSON for programs.
    Json,
    /// Identifiers alone, for scripts.
    Quiet,
}

impl Default for OutputFormat {
    fn default() -> (r: Self)
        ensures
            r == OutputFormat::Table,
    {
        OutputFormat::Table
    }
}

/// A command, and where to run it.
#[derive(Debug, PartialEq)]
pub struct TaskArgs {
    /// What to do.
    pub command: TaskCommands,
    /// The working directory; the current one where none is given.
    pub root: Option<String>,
}

/// What to do.
#[derive(Debug, PartialEq)]
pub enum TaskCommands {
    /// Create a task.
    Add(AddArgs),
    /// Create or reuse a task by its stable key.
    Ensure(EnsureArgs),
    /// List tasks.
    List(ListArgs),
    /// Show unblocked tasks.
    Ready(ReadyArgs),
    /// Mark a task as in progress.
    Start(StartArgs),
    /// Mark a task as complete.
    Close(CloseArgs),
    /// Mark a task as failed.
    Fail(FailArgs),
    /// Reopen a closed or failed task.
    Reopen(ReopenArgs),
    /// Show a single task.
    Show(ShowArgs),
}

/// Arguments of `task add`.
#[derive(Debug, PartialEq)]
pub struct AddArgs {
    /// Title.
    pub title: String,
    /// Priority, 1 to 5.
    pub priority: u8,
    /// Description.
    pub description: Option<String>,
    /// Identifiers of the tasks that must be finished first, separated by commas.
    pub blocked_by: Option<String>,
    /// Metadata, as `key=value` pairs.
    pub meta: Vec<String>,
    /// How to print the result.
    pub format: OutputFormat,
}

/// Arguments of `task ensure`.
#[derive(Debug, PartialEq)]
pub struct EnsureArgs {
    /// Title.
    pub title: String,
    /// Stable key.
    pub key: String,
    /// Priority, 1 to 5.
    pub priority: u8,
    /// Description.
    pub description: Option<String>,
    /// Identifiers of the tasks that must be finished first, separated by commas.
    pub blocked_by: Option<String>,
    /// Metadata, as `key=value` pairs.
    pub meta: Vec<String>,
    /// How to print the result.
    pub format: OutputFormat,
}

/// Arguments of `task list`.
#[derive(Debug, PartialEq)]
pub struct ListArgs {
    /// Only tasks in this state: open, in_progress, closed, failed.
    pub status: Option<String>,
    /// Only tasks that were created or closed in the last days.
    pub days: Option<i64>,
    /// At most so many tasks.
    pub limit: Option<usize>,
    /// Closed and failed tasks too.
    pub all: bool,
    /// How to print the result.
    pub format: OutputFormat,
}

/// Arguments of `task ready`.
#[derive(Debug, PartialEq)]
pub struct ReadyArgs {
    /// Tasks of all loops, not just of the current one.
    pub all: bool,
    /// How to print the result.
    pub format: OutputFormat,
}

/// Arguments of `task start`.
#[derive(Debug, PartialEq)]
pub struct StartArgs {
    /// Identifier of the task.
    pub id: String,
}

/// Arguments of `task close`.
#[derive(Debug, PartialEq)]
pub struct CloseArgs {
    /// Identifier of the task.
    pub id: String,
}

/// Arguments of `task fail`.
#[derive(Debug, PartialEq)]
pub struct FailArgs {
    /// Identifier of the task.
    pub id: String,
}

/// Arguments of `task reopen`.
#[derive(Debug, PartialEq)]
pub struct ReopenArgs {
    /// Identifier of the task.
    pub id: String,
}

/// Arguments of `task show`.
#[derive(Debug, PartialEq)]
pub struct ShowArgs {
    /// Identifier of the task.
    pub id: String,
    /// How to print the result.
    pub format: OutputFormat,
}

/// The loop that the contents of the marker file name: all but the white space around it, if
/// anything is left.
pub open spec fn current_loop(marker: Option<Seq<char>>) -> Option<Seq<char>> {
    match marker {
        Some(m) => if text::trimmed(m).len() > 0 {
            Some(text::trimmed(m))
        } else {
            None
        },
        None => None,
    }
}

/// The current loop, from the contents of the marker file; there are none where the file
/// cannot be read.
pub fn read_current_loop_id(marker: &Option<String>) -> (r: Option<String>)
    ensures
        json::opt_text(r) == current_loop(json::opt_text(*marker)),
{
    match marker {
        Some(m) => {
            let l = trim(m.as_str());
            if l.as_str().is_empty() {
                None
            } else {
                Some(l)
            }
        },
        None => None,
    }
}

/// The identifiers in a list with commas: the pieces between the commas, without the white
/// space around them and without the empty ones.
pub open spec fn blocker_ids(s: Seq<char>) -> Seq<Seq<char>>
    decreases s.len(),
{
    match text::split_at_first(s, ',') {
        Some((before, after)) => if after.len() < s.len() {
            named_piece(before) + blocker_ids(after)
        } else {
            seq![]
        },
        None => named_piece(s),
    }
}

/// A piece without the white space around it, if anything is left.
pub open spec fn named_piece(s: Seq<char>) -> Seq<Seq<char>> {
    if text::trimmed(s).len() > 0 {
        seq![text::trimmed(s)]
    } else {
        seq![]
    }
}

/// Adds the blockers that a list with commas names.
fn add_blockers(t: Task, list: String) -> (r: Task)
    ensures
        r@ == (TaskView { blocked_by: t@.blocked_by + blocker_ids(list@), ..t@ }),
{
    let ghost start = t@;
    let mut t = t;
    let mut rest = list;
    let mut more: bool = true;
    assert(start.blocked_by + blocker_ids(list@) =~= t@.blocked_by + blocker_ids(rest@));
    while more
        invariant
            t@ == (TaskView { blocked_by: t@.blocked_by, ..start }),
            start.blocked_by + blocker_ids(list@) == t@.blocked_by + if more {
                blocker_ids(rest@)
            } else {
                seq![]
            },
        decreases (if more { rest@.len() + 1 } else { 0 }),
    {
        let ghost had = t@.blocked_by;
        let ghost whole = rest@;
        proof {
            text::lemma_split_at_first(whole, ',');
        }
        let (piece, after): (String, Option<String>) = match split_once(rest.as_str(), ',') {
            Some((before, after)) => (before, Some(after)),
            None => (rest.clone(), None),
        };
        let id = trim(piece.as_str());
        if !id.as_str().is_empty() {
            t = t.with_blocker(id);
            assert(t@.blocked_by =~= had + named_piece(piece@));
        } else {
            assert(t@.blocked_by =~= had + named_piece(piece@));
        }
        match after {
            Some(a) => {
                assert(whole.len() == piece@.len() + 1 + a@.len());
                rest = a;
                assert(had + blocker_ids(whole) =~= t@.blocked_by + blocker_ids(rest@));
            },
            None => {
                more = false;
                assert(had + blocker_ids(whole) =~= t@.blocked_by + seq![]);
            },
        }
    }
    assert(t@.blocked_by + seq![] =~= t@.blocked_by);
    t
}

/// A task with its loop, description and blockers, where there are any.
pub open spec fn with_common_fields(
    t: TaskView,
    current: Option<Seq<char>>,
    description: Option<Seq<char>>,
    blocked_by: Option<Seq<char>>,
) -> TaskView {
    TaskView {
        loop_id: if current is Some {
            current
        } else {
            t.loop_id
        },
        description: if description is Some {
            description
        } else {
            t.description
        },
        blocked_by: match blocked_by {
            Some(list) => t.blocked_by + blocker_ids(list),
            None => t.blocked_by,
        },
        ..t
    }
}

/// The task with the current loop, the description and the blockers, where there are any.
pub fn add_common_task_fields(
    task: Task,
    marker: &Option<String>,
    description: Option<String>,
    blocked_by: Option<String>,
) -> (r: Task)
    ensures
        r@ == with_common_fields(
            task@,
            current_loop(json::opt_text(*marker)),
            json::opt_text(description),
            json::opt_text(blocked_by),
        ),
{
    let mut task = task;
    if let Some(loop_id) = read_current_loop_id(marker) {
        task = task.with_loop_id(Some(loop_id));
    }
    if let Some(desc) = description {
        task = task.with_description(Some(desc));
    }
    if let Some(list) = blocked_by {
        task = add_blockers(task, list);
    }
    task
}

/// The metadata that `key=value` arguments give: each is split at its first `=`, one without
/// is passed over, and of two for one key the later counts.
pub open spec fn parsed_meta(args: Seq<Seq<char>>) -> Seq<(Seq<char>, MetaView)>
    decreases args.len(),
{
    if args.len() == 0 {
        seq![]
    } else {
        let before = parsed_meta(args.drop_last());
        match text::split_at_first(args.last(), '=') {
            Some((k, v)) => task::with_entry(before, k, MetaView::Text(v)),
            None => before,
        }
    }
}

/// Sets the value of a key in metadata.
fn set_meta(m: &mut Vec<(String, MetaValue)>, key: String, value: MetaValue)
    ensures
        task::entries(final(m)@) == task::with_entry(task::entries(old(m)@), key@, value@),
{
    let ghost e = task::entries(m@);
    let ghost k = key@;
    let ghost v = value@;
    let mut i: usize = 0;
    assert(e.skip(0) =~= e);
    assert(e.take(0) + task::with_entry(e.skip(0), k, v) =~= task::with_entry(e, k, v));
    while i < m.len()
        invariant
            i <= m@.len(),
            m@ == old(m)@,
            k == key@,
            v == value@,
            e == task::entries(m@),
            e.take(i as int) + task::with_entry(e.skip(i as int), k, v) == task::with_entry(e, k, v),
        decreases m@.len() - i,
    {
        let ghost rest = e.skip(i as int);
        assert(rest[0] == (m@[i as int].0@, m@[i as int].1@));
        if same_text(m[i].0.as_str(), key.as_str()) {
            let entry = (key, value);
            m.set(i, entry);
            assert(task::entries(m@) =~= e.update(i as int, (k, v)));
            assert(e.update(i as int, (k, v)) =~= e.take(i as int) + rest.update(0, (k, v)));
            return ;
        }
        assert(rest.skip(1) =~= e.skip(i + 1));
        assert(e.take(i + 1) =~= e.take(i as int) + seq![rest[0]]);
        assert(e.take(i as int) + (seq![rest[0]] + task::with_entry(e.skip(i + 1), k, v))
            =~= e.take(i + 1) + task::with_entry(e.skip(i + 1), k, v));
        i = i + 1;
    }
    assert(e.skip(i as int) =~= Seq::<(Seq<char>, MetaView)>::empty());
    assert(e.take(i as int) =~= e);
    let entry = (key, value);
    m.push(entry);
    assert(task::entries(m@) =~= e + seq![(k, v)]);
}

/// The metadata that `key=value` arguments give. Values are strings.
pub fn parse_meta(meta_args: &Vec<String>) -> (r: Vec<(String, MetaValue)>)
    ensures
        task::entries(r@) == parsed_meta(pattern::texts(meta_args@)),
{
    let ghost args = pattern::texts(meta_args@);
    let mut out: Vec<(String, MetaValue)> = Vec::new();
    let mut i: usize = 0;
    assert(task::entries(out@) =~= parsed_meta(args.take(0)));
    while i < meta_args.len()
        invariant
            i <= meta_args@.len(),
            args == pattern::texts(meta_args@),
            task::entries(out@) == parsed_meta(args.take(i as int)),
        decreases meta_args@.len() - i,
    {
        assert(args.take(i + 1).drop_last() =~= args.take(i as int));
        assert(args.take(i + 1).last() == meta_args@[i as int]@);
        if let Some((k, v)) = split_once(meta_args[i].as_str(), '=') {
            set_meta(&mut out, k, MetaValue::Text(v));
        }
        i = i + 1;
    }
    assert(args.take(i as int) =~= args);
    out
}

/// What `str::to_lowercase` makes of a text.
pub uninterp spec fn lowercased(s: Seq<char>) -> Seq<char>;

/// An ASCII capital as its small letter; any other character as it is.
pub open spec fn ascii_lower(c: char) -> char {
    if 'A' <= c <= 'Z' {
        (c as u32 + 32) as char
    } else {
        c
    }
}

/// `str::to_lowercase` gives the lower case of a text, which depends on the text alone. In a
/// text of ASCII characters each capital becomes its small letter and nothing else changes.
#[verifier::external_body]
pub(crate) fn to_lowercase(s: &str) -> (r: String)
    ensures
        r@ == lowercased(s@),
        (forall|i: int| 0 <= i < s@.len() ==> (#[trigger] s@[i] as u32) < 128) ==> r@
            == s@.map_values(|c: char| ascii_lower(c)),
{
    s.to_lowercase()
}

/// The name of a state, as one word.
pub open spec fn status_word(s: TaskStatus) -> Seq<char> {
    match s {
        TaskStatus::Open => "open"@,
        TaskStatus::InProgress => "inprogress"@,
        TaskStatus::Closed => "closed"@,
        TaskStatus::Failed => "failed"@,
    }
}

/// Accepts the characters that count in the name of a state.
pub open spec fn counts_in_name() -> spec_fn(char) -> bool {
    |c: char| c != '_' && c != '-'
}

/// Whether a text in lower case names the state, underscores and hyphens aside.
pub fn status_is_named(status: TaskStatus, lowered: &str) -> (r: bool)
    ensures
        r == (lowered@.filter(counts_in_name()) == status_word(status)),
{
    let v = chars_of(lowered);
    let ghost p = counts_in_name();
    let mut word = String::new();
    let mut i: usize = 0;
    assert(word@ =~= v@.take(0).filter(p)) by {
        reveal(Seq::filter);
    }
    while i < v.len()
        invariant
            i <= v@.len(),
            p == counts_in_name(),
            word@ == v@.take(i as int).filter(p),
        decreases v@.len() - i,
    {
        proof {
            reveal(Seq::filter);
            assert(v@.take(i + 1).drop_last() =~= v@.take(i as int));
        }
        let c = v[i];
        if c != '_' && c != '-' {
            word.push(c);
        }
        i = i + 1;
    }
    assert(v@.take(i as int) =~= v@);
    match status {
        TaskStatus::Open => same_text(word.as_str(), "open"),
        TaskStatus::InProgress => same_text(word.as_str(), "inprogress"),
        TaskStatus::Closed => same_text(word.as_str(), "closed"),
        TaskStatus::Failed => same_text(word.as_str(), "failed"),
    }
}

/// Whether a filter names the state: in any case, underscores and hyphens aside.
pub open spec fn named_by(filter: Seq<char>, status: TaskStatus) -> bool {
    lowercased(filter).filter(counts_in_name()) == status_word(status)
}

/// Whether a filter names the state.
pub fn status_matches_filter(status: TaskStatus, filter: &str) -> (r: bool)
    ensures
        r == named_by(filter@, status),
{
    status_is_named(status, to_lowercase(filter).as_str())
}

/// Accepts the tasks that a listing is about: those in the named state, or all, or those
/// that still need work.
pub open spec fn listed_state(status: Option<Seq<char>>, all: bool) -> spec_fn(TaskView) -> bool {
    |t: TaskView|
        match status {
            Some(s) => named_by(s, t.status),
            None => all || !task::terminal(t.status),
        }
}

/// The instant some days before another.
pub open spec fn days_before(now: Instant, days: i64) -> Instant {
    Instant { seconds: (now.seconds - days * DAY_SECONDS) as i64, nanos: now.nanos }
}

/// Whether the instant some days before another can be represented.
pub open spec fn days_representable(now: Instant, days: Option<i64>) -> bool {
    days matches Some(d) ==> MIN_SECONDS <= now.seconds - d * DAY_SECONDS <= MAX_SECONDS
}

/// Whether a text names an instant after the given one.
pub open spec fn names_later(stamp: Seq<char>, cutoff: Instant) -> bool {
    match clock::instant_of(stamp) {
        Some(t) => t.later_than(cutoff),
        None => false,
    }
}

/// Accepts the tasks that were created or closed in the last days. A time that cannot be read
/// counts as long ago.
pub open spec fn listed_time(now: Instant, days: Option<i64>) -> spec_fn(TaskView) -> bool {
    |t: TaskView|
        match days {
            Some(d) => names_later(t.created, days_before(now, d)) || (t.closed matches Some(c)
                && names_later(c, days_before(now, d))),
            None => true,
        }
}

/// The tasks that a listing is about, as they come.
pub open spec fn selected(tasks: Seq<TaskView>, args: ListArgs, now: Instant) -> Seq<TaskView> {
    tasks.filter(listed_state(json::opt_text(args.status), args.all)).filter(
        listed_time(now, args.days),
    )
}

/// At most so many tasks.
pub open spec fn limited(s: Seq<TaskView>, limit: Option<usize>) -> Seq<TaskView> {
    match limit {
        Some(n) => if n < s.len() {
            s.take(n as int)
        } else {
            s
        },
        None => s,
    }
}

/// Whether `r` is the listing of the tasks: those that it is about, in order, up to the
/// limit.
pub open spec fn listing(
    r: Seq<TaskView>,
    tasks: Seq<TaskView>,
    args: ListArgs,
    now: Instant,
) -> bool {
    exists|full: Seq<TaskView>| #[trigger]
        ordering::ordering_of(full, selected(tasks, args, now)) && r == limited(full, args.limit)
}

/// Whether the day from which `task list` looks back can be represented.
pub fn days_are_representable(days: Option<i64>, now: Instant) -> (r: bool)
    ensures
        r == days_representable(now, days),
{
    match days {
        Some(d) => {
            let at: i128 = now.seconds as i128 - d as i128 * DAY_SECONDS as i128;
            MIN_SECONDS as i128 <= at && at <= MAX_SECONDS as i128
        },
        None => true,
    }
}

/// Whether a text names an instant after the given one.
fn is_later(stamp: &str, cutoff: &Instant) -> (r: bool)
    ensures
        r == names_later(stamp@, *cutoff),
{
    match parse_rfc3339(stamp) {
        Some(t) => t.is_after(cutoff),
        None => false,
    }
}

/// The tasks in the named state, or all, or those that still need work.
fn select_by_state(tasks: Vec<Task>, args: &ListArgs) -> (r: Vec<Task>)
    ensures
        task::views(r@) == task::views(tasks@).filter(
            listed_state(json::opt_text(args.status), args.all),
        ),
{
    let ghost s = task::views(tasks@);
    let ghost p = listed_state(json::opt_text(args.status), args.all);
    let mut out: Vec<Task> = Vec::new();
    let mut i: usize = 0;
    assert(task::views(out@) =~= s.take(0).filter(p)) by {
        reveal(Seq::filter);
    }
    while i < tasks.len()
        invariant
            i <= tasks@.len(),
            s == task::views(tasks@),
            p == listed_state(json::opt_text(args.status), args.all),
            task::views(out@) == s.take(i as int).filter(p),
        decreases tasks@.len() - i,
    {
        let ghost before = out@;
        proof {
            task_list::lemma_filter_step(s, p, i as int);
        }
        let keep: bool = match &args.status {
            Some(f) => status_matches_filter(tasks[i].status, f.as_str()),
            None => args.all || !tasks[i].status.is_terminal(),
        };
        if keep {
            let t = tasks[i].clone();
            out.push(t);
            assert(task::views(out@) =~= task::views(before).push(t@));
        }
        i = i + 1;
    }
    assert(s.take(i as int) =~= s);
    out
}

/// The tasks that were created or closed after the instant.
fn select_by_time(tasks: Vec<Task>, cutoff: Instant, now: Instant, days: i64) -> (r: Vec<Task>)
    requires
        cutoff == days_before(now, days),
    ensures
        task::views(r@) == task::views(tasks@).filter(listed_time(now, Some(days))),
{
    let ghost s = task::views(tasks@);
    let ghost p = listed_time(now, Some(days));
    let mut out: Vec<Task> = Vec::new();
    let mut i: usize = 0;
    assert(task::views(out@) =~= s.take(0).filter(p)) by {
        reveal(Seq::filter);
    }
    while i < tasks.len()
        invariant
            i <= tasks@.len(),
            s == task::views(tasks@),
            p == listed_time(now, Some(days)),
            cutoff == days_before(now, days),
            task::views(out@) == s.take(i as int).filter(p),
        decreases tasks@.len() - i,
    {
        let ghost before = out@;
        proof {
            task_list::lemma_filter_step(s, p, i as int);
        }
        let keep: bool = is_later(tasks[i].created.as_str(), &cutoff) || match &tasks[i].closed {
            Some(c) => is_later(c.as_str(), &cutoff),
            None => false,
        };
        if keep {
            let t = tasks[i].clone();
            out.push(t);
            assert(task::views(out@) =~= task::views(before).push(t@));
        }
        i = i + 1;
    }
    assert(s.take(i as int) =~= s);
    out
}

/// Selecting by a condition that always holds changes nothing.
proof fn lemma_no_days(s: Seq<TaskView>, now: Instant)
    ensures
        s.filter(listed_time(now, None)) == s,
    decreases s.len(),
{
    reveal(Seq::filter);
    if s.len() > 0 {
        lemma_no_days(s.drop_last(), now);
        assert(s.drop_last().push(s.last()) =~= s);
    }
}

/// The tasks that `task list` prints, in order.
///
/// With a state only tasks in that state are listed, else those that still need work, or with
/// `all` every task; with days only those that were created or closed since; at most `limit`
/// of them. They are ordered by state, priority and time of creation.
pub fn filter_tasks_for_list(tasks: Vec<Task>, args: &ListArgs, now: Instant) -> (r: Vec<Task>)
    requires
        days_representable(now, args.days),
    ensures
        listing(task::views(r@), task::views(tasks@), *args, now),
{
    let ghost all = task::views(tasks@);
    let chosen = select_by_state(tasks, args);
    let chosen = match args.days {
        Some(days) => {
            let seconds: i64 = (now.seconds as i128 - days as i128 * DAY_SECONDS as i128) as i64;
            select_by_time(chosen, Instant { seconds, nanos: now.nanos }, now, days)
        },
        None => {
            proof {
                lemma_no_days(task::views(chosen@), now);
            }
            chosen
        },
    };
    let mut sorted = sort_tasks(chosen);
    let ghost full = task::views(sorted@);
    assert(ordering::ordering_of(full, selected(all, *args, now)));
    if let Some(limit) = args.limit {
        if limit < sorted.len() {
            sorted.truncate(limit);
            assert(task::views(sorted@) =~= full.take(limit as int));
        }
    }
    sorted
}

/// What a command prints, without line feeds at the ends of lines.
#[derive(Debug, PartialEq)]
pub enum Output {
    /// Lines of text.
    Lines(Vec<String>),
    /// A task as JSON on one line.
    Json(Task),
    /// A task as indented JSON.
    PrettyJson(Task),
    /// Tasks as an indented JSON array.
    PrettyJsonList(Vec<Task>),
}

/// The contents of an [`Output`].
pub enum OutputView {
    Lines(Seq<Seq<char>>),
    Json(TaskView),
    PrettyJson(TaskView),
    PrettyJsonList(Seq<TaskView>),
}

impl View for Output {
    type V = OutputView;

    open spec fn view(&self) -> OutputView {
        match self {
            Output::Lines(l) => OutputView::Lines(pattern::texts(l@)),
            Output::Json(t) => OutputView::Json(t@),
            Output::PrettyJson(t) => OutputView::PrettyJson(t@),
            Output::PrettyJsonList(v) => OutputView::PrettyJsonList(task::views(v@)),
        }
    }
}

/// What a command comes to: its output, or the message that it fails with.
pub type CommandResult = Result<Output, String>;

/// The contents of what a command comes to.
pub open spec fn outcome(r: CommandResult) -> Result<OutputView, Seq<char>> {
    match r {
        Ok(o) => Ok(o@),
        Err(m) => Err(m@),
    }
}

/// The contents of a reply with a task.
pub open spec fn task_reply(r: TaskSourceResult<Task>) -> Result<TaskView, ErrorView> {
    match r {
        Ok(t) => Ok(t@),
        Err(e) => Err(e@),
    }
}

/// The contents of a reply with a task or none.
pub open spec fn opt_reply(
    r: TaskSourceResult<Option<Task>>,
) -> Result<Option<TaskView>, ErrorView> {
    match r {
        Ok(t) => Ok(task::opt_view(t)),
        Err(e) => Err(e@),
    }
}

/// The contents of a reply with tasks.
pub open spec fn list_reply(r: TaskSourceResult<Vec<Task>>) -> Result<Seq<TaskView>, ErrorView> {
    match r {
        Ok(v) => Ok(task::views(v@)),
        Err(e) => Err(e@),
    }
}

/// The message for an operation that failed.
pub open spec fn failure(what: Seq<char>, e: ErrorView) -> Seq<char> {
    what + task_source::error_text(e)
}

/// The message for a task that does not exist.
pub open spec fn not_found(id: Seq<char>) -> Seq<char> {
    "Task "@ + id + " not found"@
}

/// The message for an operation that failed.
fn failed(what: &str, e: &TaskSourceError) -> (r: String)
    ensures
        r@ == failure(what@, e@),
{
    let m = e.to_string();
    glue(what, m.as_str())
}

/// The message for a task that does not exist.
fn missing(id: &str) -> (r: String)
    ensures
        r@ == not_found(id@),
{
    let m = glue("Task ", id);
    glue(m.as_str(), " not found")
}

/// A single line of output.
fn one_line(line: String) -> (r: Output)
    ensures
        r@ == OutputView::Lines(seq![line@]),
{
    let mut lines: Vec<String> = Vec::new();
    lines.push(line);
    assert(pattern::texts(lines@) =~= seq![line@]);
    Output::Lines(lines)
}

/// What `task add` comes to, given the reply of the store.
pub open spec fn add_report(
    reply: Result<TaskView, ErrorView>,
    format: OutputFormat,
    use_colors: bool,
) -> Result<OutputView, Seq<char>> {
    match reply {
        Err(e) => Err(failure("Failed to add task: "@, e)),
        Ok(t) => Ok(
            match format {
                OutputFormat::Table => OutputView::Lines(display::created_text(t, use_colors)),
                OutputFormat::Json => OutputView::Json(t),
                OutputFormat::Quiet => OutputView::Lines(seq![t.id]),
            },
        ),
    }
}

/// What `task add` comes to, given the reply of the store.
pub fn report_add(
    reply: TaskSourceResult<Task>,
    format: OutputFormat,
    use_colors: bool,
) -> (r: CommandResult)
    ensures
        outcome(r) == add_report(task_reply(reply), format, use_colors),
{
    match reply {
        Err(e) => Err(failed("Failed to add task: ", &e)),
        Ok(t) => Ok(
            match format {
                OutputFormat::Table => Output::Lines(created_lines(&t, use_colors)),
                OutputFormat::Json => Output::Json(t),
                OutputFormat::Quiet => one_line(t.id),
            },
        ),
    }
}

/// What `task ensure` comes to, given whether the key was known before, and the reply of the
/// store.
pub open spec fn ensure_report(
    reply: Result<TaskView, ErrorView>,
    key: Seq<char>,
    existed: bool,
    format: OutputFormat,
    use_colors: bool,
) -> Result<OutputView, Seq<char>> {
    match reply {
        Err(e) => Err(failure("Failed to ensure task: "@, e)),
        Ok(t) => Ok(
            match format {
                OutputFormat::Table => OutputView::Lines(
                    display::ensured_text(t, key, existed, use_colors),
                ),
                OutputFormat::Json => OutputView::Json(t),
                OutputFormat::Quiet => OutputView::Lines(seq![t.id]),
            },
        ),
    }
}

/// What `task ensure` comes to, given whether the key was known before, and the reply of the
/// store.
pub fn report_ensure(
    reply: TaskSourceResult<Task>,
    key: &str,
    existed: bool,
    format: OutputFormat,
    use_colors: bool,
) -> (r: CommandResult)
    ensures
        outcome(r) == ensure_report(task_reply(reply), key@, existed, format, use_colors),
{
    match reply {
        Err(e) => Err(failed("Failed to ensure task: ", &e)),
        Ok(t) => Ok(
            match format {
                OutputFormat::Table => Output::Lines(ensured_lines(&t, key, existed, use_colors)),
                OutputFormat::Json => Output::Json(t),
                OutputFormat::Quiet => one_line(t.id),
            },
        ),
    }
}

/// Whether a task with the key is among those that were listed; not, where listing failed.
pub open spec fn key_known(listed: Result<Seq<TaskView>, ErrorView>, key: Seq<char>) -> bool {
    match listed {
        Ok(v) => task_list::by_key(v, key) is Some,
        Err(_) => false,
    }
}

/// Whether a task with the key is among those that were listed.
pub fn key_is_known(listed: TaskSourceResult<Vec<Task>>, key: &str) -> (r: bool)
    ensures
        r == key_known(list_reply(listed), key@),
{
    match listed {
        Ok(v) => task_list::find_key(&v, key).is_some(),
        Err(_) => false,
    }
}

/// How tasks are printed in a listing.
pub open spec fn listed_output(
    tasks: Seq<TaskView>,
    table: Seq<Seq<char>>,
    format: OutputFormat,
) -> OutputView {
    match format {
        OutputFormat::Table => OutputView::Lines(table),
        OutputFormat::Json => OutputView::PrettyJsonList(tasks),
        OutputFormat::Quiet => OutputView::Lines(display::ids_text(tasks)),
    }
}

/// Whether `r` is what `task list` comes to, given the reply of the store.
pub open spec fn list_report(
    reply: Result<Seq<TaskView>, ErrorView>,
    args: ListArgs,
    now: Instant,
    use_colors: bool,
    r: Result<OutputView, Seq<char>>,
) -> bool {
    match reply {
        Err(e) => r is Err && r->Err_0 == failure("Failed to list tasks: "@, e),
        Ok(all) => r is Ok && exists|tasks: Seq<TaskView>| #[trigger]
            listing(tasks, all, args, now) && r->Ok_0 == listed_output(
                tasks,
                display::list_text(tasks, use_colors),
                args.format,
            ),
    }
}

/// What `task list` comes to, given the reply of the store.
pub fn report_list(
    reply: TaskSourceResult<Vec<Task>>,
    args: &ListArgs,
    now: Instant,
    use_colors: bool,
) -> (r: CommandResult)
    requires
        days_representable(now, args.days),
    ensures
        list_report(list_reply(reply), *args, now, use_colors, outcome(r)),
{
    match reply {
        Err(e) => Err(failed("Failed to list tasks: ", &e)),
        Ok(all) => {
            let tasks = filter_tasks_for_list(all, args, now);
            let ghost shown = task::views(tasks@);
            let r: CommandResult = match args.format {
                OutputFormat::Table => Ok(Output::Lines(list_lines(&tasks, use_colors))),
                OutputFormat::Json => Ok(Output::PrettyJsonList(tasks)),
                OutputFormat::Quiet => Ok(Output::Lines(id_lines(&tasks))),
            };
            assert(outcome(r)->Ok_0 == listed_output(
                shown,
                display::list_text(shown, use_colors),
                args.format,
            ));
            assert(listing(shown, list_reply(reply)->Ok_0, *args, now));
            r
        },
    }
}

/// What `task ready` comes to, given the reply of the store.
pub open spec fn ready_report(
    reply: Result<Seq<TaskView>, ErrorView>,
    format: OutputFormat,
    use_colors: bool,
) -> Result<OutputView, Seq<char>> {
    match reply {
        Err(e) => Err(failure("Failed to get ready tasks: "@, e)),
        Ok(v) => Ok(listed_output(v, display::ready_text(v, use_colors), format)),
    }
}

/// What `task ready` comes to, given the reply of the store.
pub fn report_ready(
    reply: TaskSourceResult<Vec<Task>>,
    format: OutputFormat,
    use_colors: bool,
) -> (r: CommandResult)
    ensures
        outcome(r) == ready_report(list_reply(reply), format, use_colors),
{
    match reply {
        Err(e) => Err(failed("Failed to get ready tasks: ", &e)),
        Ok(v) => match format {
            OutputFormat::Table => Ok(Output::Lines(ready_lines(&v, use_colors))),
            OutputFormat::Json => Ok(Output::PrettyJsonList(v)),
            OutputFormat::Quiet => Ok(Output::Lines(id_lines(&v))),
        },
    }
}

/// What a change of state comes to, given the reply of the store.
pub open spec fn change_report(
    what: Seq<char>,
    h: Hue,
    label: Seq<char>,
    id: Seq<char>,
    reply: Result<Option<TaskView>, ErrorView>,
    use_colors: bool,
) -> Result<OutputView, Seq<char>> {
    match reply {
        Err(e) => Err(failure(what, e)),
        Ok(None) => Err(not_found(id)),
        Ok(Some(t)) => Ok(
            OutputView::Lines(seq![display::change_text(h, label, id, t.title, use_colors)]),
        ),
    }
}

/// What a change of state comes to, given the reply of the store.
pub fn report_change(
    what: &str,
    h: Hue,
    label: &str,
    id: &str,
    reply: TaskSourceResult<Option<Task>>,
    use_colors: bool,
) -> (r: CommandResult)
    ensures
        outcome(r) == change_report(what@, h, label@, id@, opt_reply(reply), use_colors),
{
    match reply {
        Err(e) => Err(failed(what, &e)),
        Ok(None) => Err(missing(id)),
        Ok(Some(t)) => Ok(one_line(change_line(h, label, id, t.title.as_str(), use_colors))),
    }
}

/// What `task show` comes to, given the reply of the store.
pub open spec fn show_report(
    id: Seq<char>,
    reply: Result<Option<TaskView>, ErrorView>,
    format: OutputFormat,
    use_colors: bool,
) -> Result<OutputView, Seq<char>> {
    match reply {
        Err(e) => Err(failure("Failed to get task: "@, e)),
        Ok(None) => Err(not_found(id)),
        Ok(Some(t)) => Ok(
            match format {
                OutputFormat::Table => OutputView::Lines(display::show_text(t, use_colors)),
                OutputFormat::Json => OutputView::PrettyJson(t),
                OutputFormat::Quiet => OutputView::Lines(seq![t.id]),
            },
        ),
    }
}

/// What `task show` comes to, given the reply of the store.
pub fn report_show(
    id: &str,
    reply: TaskSourceResult<Option<Task>>,
    format: OutputFormat,
    use_colors: bool,
) -> (r: CommandResult)
    ensures
        outcome(r) == show_report(id@, opt_reply(reply), format, use_colors),
{
    match reply {
        Err(e) => Err(failed("Failed to get task: ", &e)),
        Ok(None) => Err(missing(id)),
        Ok(Some(t)) => Ok(
            match format {
                OutputFormat::Table => Output::Lines(show_lines(&t, use_colors)),
                OutputFormat::Json => Output::PrettyJson(t),
                OutputFormat::Quiet => one_line(t.id),
            },
        ),
    }
}

/// The task that `task add` hands to the store.
pub open spec fn task_to_add(a: AddArgs, marker: Option<Seq<char>>, now: Instant) -> TaskView {
    TaskView {
        metadata: parsed_meta(pattern::texts(a.meta@)),
        ..with_common_fields(
            task::new_task(a.title@, a.priority, now),
            current_loop(marker),
            json::opt_text(a.description),
            json::opt_text(a.blocked_by),
        )
    }
}

/// The task that `task ensure` hands to the store.
pub open spec fn task_to_ensure(
    a: EnsureArgs,
    marker: Option<Seq<char>>,
    now: Instant,
) -> TaskView {
    TaskView {
        metadata: parsed_meta(pattern::texts(a.meta@)),
        ..with_common_fields(
            TaskView { key: Some(a.key@), ..task::new_task(a.title@, a.priority, now) },
            current_loop(marker),
            json::opt_text(a.description),
            json::opt_text(a.blocked_by),
        )
    }
}

/// Whether the store replied to adding the task: it did what it does for that, and a task in
/// the reply fits the tasks that it then holds.
pub open spec fn add_replied<S: TaskSource>(
    before: &S,
    t: TaskView,
    after: &S,
    reply: TaskSourceResult<Task>,
) -> bool {
    &&& exists|x: Task| x@ == t && #[trigger] before.added_to(x, after, reply)
    &&& reply matches Ok(x) ==> task_source::added_to_store(t, after.tasks(), x@)
}

/// Whether the store replied to ensuring the task: it did what it does for that, and a task in
/// the reply fits the tasks that it then holds.
pub open spec fn ensure_replied<S: TaskSource>(
    before: &S,
    t: TaskView,
    after: &S,
    reply: TaskSourceResult<Task>,
) -> bool {
    &&& exists|x: Task| x@ == t && #[trigger] before.ensured_to(x, after, reply)
    &&& reply matches Ok(x) ==> task_source::ensured_in_store(t, after.tasks(), x@)
}

/// Whether the store was asked for its tasks, and what it listed fits its tasks and filter.
pub open spec fn all_replied<S: TaskSource>(source: &S, reply: TaskSourceResult<Vec<Task>>) -> bool {
    &&& call_ensures(S::all, (source,), reply)
    &&& reply matches Ok(v) ==> task::views(v@) == task_list::scoped(
        source.tasks(),
        source.loop_filter(),
    )
}

/// Whether the store was asked for its ready tasks, and what it listed fits its tasks and
/// filter.
pub open spec fn ready_replied<S: TaskSource>(
    source: &S,
    reply: TaskSourceResult<Vec<Task>>,
) -> bool {
    &&& call_ensures(S::ready, (source,), reply)
    &&& reply matches Ok(v) ==> task::views(v@) == task_list::ready_in(
        source.tasks(),
        source.loop_filter(),
    )
}

/// Whether the store was asked for a task.
pub open spec fn asked_for<S: TaskSource>(
    source: &S,
    id: &str,
    reply: TaskSourceResult<Option<Task>>,
) -> bool {
    call_ensures(S::get, (source, id), reply)
}

/// Whether the store was asked for the task with the identifier, and a task in the reply is
/// that one.
pub open spec fn get_replied<S: TaskSource>(
    source: &S,
    id: Seq<char>,
    reply: TaskSourceResult<Option<Task>>,
) -> bool {
    &&& exists|i: &str| i@ == id && #[trigger] asked_for(source, i, reply)
    &&& reply matches Ok(t) ==> task::opt_view(t) == task_list::by_id(source.tasks(), id)
}

/// Whether the store replied to closing the task: it did what it does for that, and the reply
/// fits the tasks that it then holds.
pub open spec fn close_replied<S: TaskSource>(
    before: &S,
    id: Seq<char>,
    after: &S,
    reply: TaskSourceResult<Option<Task>>,
) -> bool {
    &&& before.closed_to(id, after, reply)
    &&& reply matches Ok(t) ==> task_source::closed_in_store(
        id,
        after.tasks(),
        task::opt_view(t),
    )
}

/// Whether the store replied to starting the task: it did what it does for that, and the reply
/// fits the tasks that it then holds.
pub open spec fn start_replied<S: TaskSource>(
    before: &S,
    id: Seq<char>,
    after: &S,
    reply: TaskSourceResult<Option<Task>>,
) -> bool {
    &&& before.started_to(id, after, reply)
    &&& reply matches Ok(t) ==> task_source::started_in_store(
        id,
        after.tasks(),
        task::opt_view(t),
    )
}

/// Whether the store replied to failing the task: it did what it does for that, and the reply
/// fits the tasks that it then holds.
pub open spec fn fail_replied<S: TaskSource>(
    before: &S,
    id: Seq<char>,
    after: &S,
    reply: TaskSourceResult<Option<Task>>,
) -> bool {
    &&& before.failed_to(id, after, reply)
    &&& reply matches Ok(t) ==> task_source::failed_in_store(
        id,
        after.tasks(),
        task::opt_view(t),
    )
}

/// Whether the store replied to reopening the task: it did what it does for that, and the reply
/// fits the tasks that it then holds.
pub open spec fn reopen_replied<S: TaskSource>(
    before: &S,
    id: Seq<char>,
    after: &S,
    reply: TaskSourceResult<Option<Task>>,
) -> bool {
    &&& before.reopened_to(id, after, reply)
    &&& reply matches Ok(t) ==> task_source::reopened_in_store(
        id,
        after.tasks(),
        task::opt_view(t),
    )
}

/// Whether `after` is the store that `task ready` asks: limited to the current loop, unless all
/// loops are wanted or there is none; it is then the store as it was.
pub open spec fn ready_limited<S: TaskSource>(
    before: &S,
    all: bool,
    marker: Option<Seq<char>>,
    after: &S,
) -> bool {
    if !all && current_loop(marker) is Some {
        before.limited_to(current_loop(marker), after) && after.tasks() == before.tasks()
            && after.loop_filter() == current_loop(marker)
    } else {
        after == before
    }
}

/// What a command does to a store, and what it comes to.
pub open spec fn executed<S: TaskSource>(
    c: TaskCommands,
    marker: Option<Seq<char>>,
    now: Instant,
    use_colors: bool,
    before: &S,
    after: &S,
    r: Result<OutputView, Seq<char>>,
) -> bool {
    match c {
        TaskCommands::Add(a) => after.loop_filter() == before.loop_filter() && exists|
            reply: TaskSourceResult<Task>,
        | #[trigger]
            add_replied(before, task_to_add(a, marker, now), after, reply) && r == add_report(
                task_reply(reply),
                a.format,
                use_colors,
            ),
        TaskCommands::Ensure(a) => after.loop_filter() == before.loop_filter() && exists|
            listed: TaskSourceResult<Vec<Task>>,
            reply: TaskSourceResult<Task>,
        | #[trigger]
            all_replied(before, listed) && #[trigger] ensure_replied(
                before,
                task_to_ensure(a, marker, now),
                after,
                reply,
            ) && r == ensure_report(
                task_reply(reply),
                a.key@,
                key_known(list_reply(listed), a.key@),
                a.format,
                use_colors,
            ),
        TaskCommands::List(a) => after == before && exists|reply: TaskSourceResult<Vec<Task>>|
            #[trigger]
            all_replied(before, reply) && list_report(list_reply(reply), a, now, use_colors, r),
        TaskCommands::Ready(a) => ready_limited(before, a.all, marker, after) && exists|
            reply: TaskSourceResult<Vec<Task>>,
        | #[trigger]
            ready_replied(after, reply) && r == ready_report(
                list_reply(reply),
                a.format,
                use_colors,
            ),
        TaskCommands::Start(a) => after.loop_filter() == before.loop_filter() && exists|
            reply: TaskSourceResult<Option<Task>>,
        | #[trigger]
            start_replied(before, a.id@, after, reply) && r == change_report(
                "Failed to start task: "@,
                Hue::Blue,
                "Started task: "@,
                a.id@,
                opt_reply(reply),
                use_colors,
            ),
        TaskCommands::Close(a) => after.loop_filter() == before.loop_filter() && exists|
            reply: TaskSourceResult<Option<Task>>,
        | #[trigger]
            close_replied(before, a.id@, after, reply) && r == change_report(
                "Failed to close task: "@,
                Hue::Green,
                "Closed task: "@,
                a.id@,
                opt_reply(reply),
                use_colors,
            ),
        TaskCommands::Fail(a) => after.loop_filter() == before.loop_filter() && exists|
            reply: TaskSourceResult<Option<Task>>,
        | #[trigger]
            fail_replied(before, a.id@, after, reply) && r == change_report(
                "Failed to fail task: "@,
                Hue::Red,
                "Failed task: "@,
                a.id@,
                opt_reply(reply),
                use_colors,
            ),
        TaskCommands::Reopen(a) => after.loop_filter() == before.loop_filter() && exists|
            reply: TaskSourceResult<Option<Task>>,
        | #[trigger]
            reopen_replied(before, a.id@, after, reply) && r == change_report(
                "Failed to reopen task: "@,
                Hue::Yellow,
                "Reopened task: "@,
                a.id@,
                opt_reply(reply),
                use_colors,
            ),
        TaskCommands::Show(a) => after == before && exists|reply: TaskSourceResult<Option<Task>>|
            #[trigger]
            get_replied(before, a.id@, reply) && r == show_report(
                a.id@,
                opt_reply(reply),
                a.format,
                use_colors,
            ),
    }
}

/// Runs `task add`.
pub fn execute_add<S: TaskSource>(
    args: AddArgs,
    source: &mut S,
    marker: &Option<String>,
    now: Instant,
    use_colors: bool,
) -> (r: CommandResult)
    requires
        now.is_valid(),
        now.seconds >= 0,
    ensures
        executed(
            TaskCommands::Add(args),
            json::opt_text(*marker),
            now,
            use_colors,
            old(source),
            final(source),
            outcome(r),
        ),
{
    let ghost a = args;
    let meta = parse_meta(&args.meta);
    let mut t = add_common_task_fields(
        Task::new_at(args.title, args.priority, now),
        marker,
        args.description,
        args.blocked_by,
    );
    t.metadata = meta;
    assert(t@ =~= task_to_add(a, json::opt_text(*marker), now));
    let ghost before = *source;
    let reply = source.add(t);
    assert(before.added_to(t, source, reply));
    assert(add_replied(&before, task_to_add(a, json::opt_text(*marker), now), source, reply));
    let r = report_add(reply, args.format, use_colors);
    assert(outcome(r) == add_report(task_reply(reply), a.format, use_colors));
    r
}

/// Runs `task ensure`.
pub fn execute_ensure<S: TaskSource>(
    args: EnsureArgs,
    source: &mut S,
    marker: &Option<String>,
    now: Instant,
    use_colors: bool,
) -> (r: CommandResult)
    requires
        now.is_valid(),
        now.seconds >= 0,
    ensures
        executed(
            TaskCommands::Ensure(args),
            json::opt_text(*marker),
            now,
            use_colors,
            old(source),
            final(source),
            outcome(r),
        ),
{
    let ghost a = args;
    let meta = parse_meta(&args.meta);
    let key = args.key;
    let mut t = add_common_task_fields(
        Task::new_at(args.title, args.priority, now).with_key(Some(key.clone())),
        marker,
        args.description,
        args.blocked_by,
    );
    t.metadata = meta;
    assert(t@ =~= task_to_ensure(a, json::opt_text(*marker), now));
    let ghost before = *source;
    let listed = source.all();
    assert(all_replied(&before, listed));
    let existed: bool = key_is_known(listed, key.as_str());
    let reply = source.ensure(t);
    assert(before.ensured_to(t, source, reply));
    assert(ensure_replied(&before, task_to_ensure(a, json::opt_text(*marker), now), source, reply));
    let r = report_ensure(reply, key.as_str(), existed, args.format, use_colors);
    assert(outcome(r) == ensure_report(
        task_reply(reply),
        a.key@,
        key_known(list_reply(listed), a.key@),
        a.format,
        use_colors,
    ));
    r
}

/// Runs `task list`.
pub fn execute_list<S: TaskSource>(
    args: ListArgs,
    source: &mut S,
    marker: &Option<String>,
    now: Instant,
    use_colors: bool,
) -> (r: CommandResult)
    requires
        days_representable(now, args.days),
    ensures
        executed(
            TaskCommands::List(args),
            json::opt_text(*marker),
            now,
            use_colors,
            old(source),
            final(source),
            outcome(r),
        ),
{
    let reply = source.all();
    assert(all_replied(source, reply));
    let r = report_list(reply, &args, now, use_colors);
    assert(list_report(list_reply(reply), args, now, use_colors, outcome(r)));
    r
}

/// Runs `task ready`: the ready tasks of the current loop, or with `all` of all loops.
pub fn execute_ready<S: TaskSource>(
    args: ReadyArgs,
    source: &mut S,
    marker: &Option<String>,
    now: Instant,
    use_colors: bool,
) -> (r: CommandResult)
    ensures
        executed(
            TaskCommands::Ready(args),
            json::opt_text(*marker),
            now,
            use_colors,
            old(source),
            final(source),
            outcome(r),
        ),
{
    if !args.all {
        if let Some(l) = read_current_loop_id(marker) {
            source.set_loop_filter(Some(l.as_str()));
        }
    }
    let reply = source.ready();
    assert(ready_replied(source, reply));
    let r = report_ready(reply, args.format, use_colors);
    assert(outcome(r) == ready_report(list_reply(reply), args.format, use_colors));
    r
}

/// Runs `task start`.
pub fn execute_start<S: TaskSource>(
    args: StartArgs,
    source: &mut S,
    marker: &Option<String>,
    now: Instant,
    use_colors: bool,
) -> (r: CommandResult)
    ensures
        executed(
            TaskCommands::Start(args),
            json::opt_text(*marker),
            now,
            use_colors,
            old(source),
            final(source),
            outcome(r),
        ),
{
    let ghost before = *source;
    let reply = source.start(args.id.as_str());
    assert(start_replied(&before, args.id@, source, reply));
    let r = report_change(
        "Failed to start task: ",
        Hue::Blue,
        "Started task: ",
        args.id.as_str(),
        reply,
        use_colors,
    );
    assert(outcome(r) == change_report(
        "Failed to start task: "@,
        Hue::Blue,
        "Started task: "@,
        args.id@,
        opt_reply(reply),
        use_colors,
    ));
    r
}

/// Runs `task close`.
pub fn execute_close<S: TaskSource>(
    args: CloseArgs,
    source: &mut S,
    marker: &Option<String>,
    now: Instant,
    use_colors: bool,
) -> (r: CommandResult)
    ensures
        executed(
            TaskCommands::Close(args),
            json::opt_text(*marker),
            now,
            use_colors,
            old(source),
            final(source),
            outcome(r),
        ),
{
    let ghost before = *source;
    let reply = source.close(args.id.as_str());
    assert(close_replied(&before, args.id@, source, reply));
    let r = report_change(
        "Failed to close task: ",
        Hue::Green,
        "Closed task: ",
        args.id.as_str(),
        reply,
        use_colors,
    );
    assert(outcome(r) == change_report(
        "Failed to close task: "@,
        Hue::Green,
        "Closed task: "@,
        args.id@,
        opt_reply(reply),
        use_colors,
    ));
    r
}

/// Runs `task fail`.
pub fn execute_fail<S: TaskSource>(
    args: FailArgs,
    source: &mut S,
    marker: &Option<String>,
    now: Instant,
    use_colors: bool,
) -> (r: CommandResult)
    ensures
        executed(
            TaskCommands::Fail(args),
            json::opt_text(*marker),
            now,
            use_colors,
            old(source),
            final(source),
            outcome(r),
        ),
{
    let ghost before = *source;
    let reply = source.fail(args.id.as_str());
    assert(fail_replied(&before, args.id@, source, reply));
    let r = report_change(
        "Failed to fail task: ",
        Hue::Red,
        "Failed task: ",
        args.id.as_str(),
        reply,
        use_colors,
    );
    assert(outcome(r) == change_report(
        "Failed to fail task: "@,
        Hue::Red,
        "Failed task: "@,
        args.id@,
        opt_reply(reply),
        use_colors,
    ));
    r
}

/// Runs `task reopen`.
pub fn execute_reopen<S: TaskSource>(
    args: ReopenArgs,
    source: &mut S,
    marker: &Option<String>,
    now: Instant,
    use_colors: bool,
) -> (r: CommandResult)
    ensures
        executed(
            TaskCommands::Reopen(args),
            json::opt_text(*marker),
            now,
            use_colors,
            old(source),
            final(source),
            outcome(r),
        ),
{
    let ghost before = *source;
    let reply = source.reopen(args.id.as_str());
    assert(reopen_replied(&before, args.id@, source, reply));
    let r = report_change(
        "Failed to reopen task: ",
        Hue::Yellow,
        "Reopened task: ",
        args.id.as_str(),
        reply,
        use_colors,
    );
    assert(outcome(r) == change_report(
        "Failed to reopen task: "@,
        Hue::Yellow,
        "Reopened task: "@,
        args.id@,
        opt_reply(reply),
        use_colors,
    ));
    r
}

/// Runs `task show`.
pub fn execute_show<S: TaskSource>(
    args: ShowArgs,
    source: &mut S,
    marker: &Option<String>,
    now: Instant,
    use_colors: bool,
) -> (r: CommandResult)
    ensures
        executed(
            TaskCommands::Show(args),
            json::opt_text(*marker),
            now,
            use_colors,
            old(source),
            final(source),
            outcome(r),
        ),
{
    let id = args.id.as_str();
    let reply = source.get(id);
    assert(asked_for(source, id, reply));
    assert(get_replied(source, args.id@, reply));
    let r = report_show(args.id.as_str(), reply, args.format, use_colors);
    assert(outcome(r) == show_report(args.id@, opt_reply(reply), args.format, use_colors));
    r
}

/// Runs a command on a task source.
///
/// `marker` holds the contents of the file that names the current loop, and `now` is the
/// time of the command.
pub fn execute<S: TaskSource>(
    args: TaskArgs,
    source: &mut S,
    marker: &Option<String>,
    now: Instant,
    use_colors: bool,
) -> (r: CommandResult)
    requires
        now.is_valid(),
        now.seconds >= 0,
        args.command matches TaskCommands::List(a) ==> days_representable(now, a.days),
    ensures
        executed(
            args.command,
            json::opt_text(*marker),
            now,
            use_colors,
            old(source),
            final(source),
            outcome(r),
        ),
{
    match args.command {
        TaskCommands::Add(a) => execute_add(a, source, marker, now, use_colors),
        TaskCommands::Ensure(a) => execute_ensure(a, source, marker, now, use_colors),
        TaskCommands::List(a) => execute_list(a, source, marker, now, use_colors),
        TaskCommands::Ready(a) => execute_ready(a, source, marker, now, use_colors),
        TaskCommands::Start(a) => execute_start(a, source, marker, now, use_colors),
        TaskCommands::Close(a) => execute_close(a, source, marker, now, use_colors),
        TaskCommands::Fail(a) => execute_fail(a, source, marker, now, use_colors),
        TaskCommands::Reopen(a) => execute_reopen(a, source, marker, now, use_colors),
        TaskCommands::Show(a) => execute_show(a, source, marker, now, use_colors),
    }
}

/// What the choice of a task source comes to for a command.
pub fn report_create<S>(made: TaskSourceResult<S>) -> (r: Result<S, String>)
    ensures
        choice_reported(made, r),
{
    match made {
        Ok(s) => Ok(s),
        Err(e) => Err(failed("Failed to create task source: ", &e)),
    }
}

/// The task source that a command works on.
pub fn create_source<S: TaskSource, F>(
    registry: &TaskSourceRegistry<F>,
    config: &TaskSourceConfig,
    workspace_root: &str,
) -> (r: Result<S, String>) where F: Fn(&ConnectorConfig, &str) -> TaskSourceResult<S>
    requires
        registry.factory_for(config::chosen_name(*config)) matches Some(f)
            ==> task_source_registry::callable::<S, F>(f),
    ensures
        match registry.factory_for(config::chosen_name(*config)) {
            None => r is Err && r->Err_0@ == failure(
                "Failed to create task source: "@,
                task_source_registry::unknown_source(config::chosen_name(*config)),
            ),
            Some(f) => exists|product: TaskSourceResult<S>|
                f.ensures((&config::chosen_config(*config), workspace_root), product)
                    && #[trigger] source_made(product, r),
        },
{
    let made: TaskSourceResult<S> = registry.create(config, workspace_root);
    let r = report_create(made);
    proof {
        if let Some(f) = registry.factory_for(config::chosen_name(*config)) {
            let product = choose|product: TaskSourceResult<S>|
                f.ensures((&config::chosen_config(*config), workspace_root), product)
                    && #[trigger] task_source_registry::made(product, made);
            assert(source_made(product, r));
        }
    }
    r
}

/// Whether `r` is what a command makes of the choice of a source.
pub open spec fn choice_reported<S>(made: TaskSourceResult<S>, r: Result<S, String>) -> bool {
    match made {
        Ok(s) => r is Ok && r->Ok_0 == s,
        Err(e) => r is Err && r->Err_0@ == failure("Failed to create task source: "@, e@),
    }
}

/// Whether `r` is what a command makes of a source that a factory made and that was then set
/// up.
pub open spec fn source_made<S: TaskSource>(
    product: TaskSourceResult<S>,
    r: Result<S, String>,
) -> bool {
    exists|made: TaskSourceResult<S>| #[trigger]
        task_source_registry::made(product, made) && choice_reported(made, r)
}

/// The value that the last argument for a key gives.
pub open spec fn last_meta(args: Seq<Seq<char>>, key: Seq<char>) -> Option<MetaView>
    decreases args.len(),
{
    if args.len() == 0 {
        None
    } else {
        match text::split_at_first(args.last(), '=') {
            Some((k, v)) => if k == key {
                Some(MetaView::Text(v))
            } else {
                last_meta(args.drop_last(), key)
            },
            None => last_meta(args.drop_last(), key),
        }
    }
}

/// Setting one key sets that key and no other.
proof fn lemma_entry_set(
    m: Seq<(Seq<char>, MetaView)>,
    key: Seq<char>,
    value: MetaView,
    other: Seq<char>,
)
    ensures
        task::entry_of(task::with_entry(m, key, value), other) == if other == key {
            Some(value)
        } else {
            task::entry_of(m, other)
        },
    decreases m.len(),
{
    let r = task::with_entry(m, key, value);
    if m.len() == 0 {
        assert(r.skip(1) =~= Seq::<(Seq<char>, MetaView)>::empty());
        assert(task::entry_of(r.skip(1), other) is None);
    } else if m[0].0 == key {
        assert(r.skip(1) =~= m.skip(1));
    } else {
        lemma_entry_set(m.skip(1), key, value, other);
        assert(r.skip(1) =~= task::with_entry(m.skip(1), key, value));
        assert(r[0] == m[0]);
    }
}

/// Of several metadata arguments for one key the last counts, and what follows its first `=`
/// is the value, further `=` signs and all.
pub proof fn last_meta_counts(args: Seq<Seq<char>>, key: Seq<char>)
    ensures
        task::entry_of(parsed_meta(args), key) == last_meta(args, key),
    decreases args.len(),
{
    if args.len() > 0 {
        last_meta_counts(args.drop_last(), key);
        if let Some((k, v)) = text::split_at_first(args.last(), '=') {
            lemma_entry_set(parsed_meta(args.drop_last()), k, MetaView::Text(v), key);
        }
    }
}

proof fn lemma_entry_keys(m: Seq<(Seq<char>, MetaView)>, key: Seq<char>, value: MetaView)
    requires
        task::distinct_keys(m),
    ensures
        task::distinct_keys(task::with_entry(m, key, value)),
        forall|i: int|
            0 <= i < task::with_entry(m, key, value).len() ==> ((#[trigger] task::with_entry(
                m,
                key,
                value,
            )[i]).0 == key || exists|j: int| 0 <= j < m.len() && m[j].0 == task::with_entry(
                m,
                key,
                value,
            )[i].0),
    decreases m.len(),
{
    let r = task::with_entry(m, key, value);
    if m.len() == 0 {
    } else if m[0].0 == key {
        assert forall|i: int| 0 <= i < r.len() implies (#[trigger] r[i]).0 == key || exists|j: int|
            0 <= j < m.len() && m[j].0 == r[i].0 by {
            assert(m[i].0 == r[i].0);
        }
    } else {
        let rest = m.skip(1);
        assert forall|i: int, j: int| 0 <= i < j < rest.len() implies (#[trigger] rest[i]).0 != (
        #[trigger] rest[j]).0 by {
            assert(rest[i] == m[i + 1] && rest[j] == m[j + 1]);
        }
        lemma_entry_keys(rest, key, value);
        let tail = task::with_entry(rest, key, value);
        assert forall|i: int| 0 <= i < r.len() implies (#[trigger] r[i]).0 == key || exists|j: int|
            0 <= j < m.len() && m[j].0 == r[i].0 by {
            if i == 0 {
                assert(m[0].0 == r[0].0);
            } else {
                assert(r[i] == tail[i - 1]);
                if tail[i - 1].0 != key {
                    let j = choose|j: int| 0 <= j < rest.len() && rest[j].0 == tail[i - 1].0;
                    assert(m[j + 1] == rest[j]);
                }
            }
        }
        assert forall|i: int, j: int| 0 <= i < j < r.len() implies (#[trigger] r[i]).0 != (
        #[trigger] r[j]).0 by {
            assert(r[j] == tail[j - 1]);
            if i == 0 {
                if tail[j - 1].0 != key {
                    let k = choose|k: int| 0 <= k < rest.len() && rest[k].0 == tail[j - 1].0;
                    assert(rest[k] == m[k + 1]);
                }
            } else {
                assert(r[i] == tail[i - 1]);
            }
        }
    }
}

/// No key occurs twice in the metadata that arguments give.
pub proof fn meta_keys_are_distinct(args: Seq<Seq<char>>)
    ensures
        task::distinct_keys(parsed_meta(args)),
    decreases args.len(),
{
    if args.len() > 0 {
        meta_keys_are_distinct(args.drop_last());
        if let Some((k, v)) = text::split_at_first(args.last(), '=') {
            lemma_entry_keys(parsed_meta(args.drop_last()), k, MetaView::Text(v));
        }
    }
}

/// There is one listing of given tasks under given arguments.
pub proof fn listing_is_unique(
    a: Seq<TaskView>,
    b: Seq<TaskView>,
    tasks: Seq<TaskView>,
    args: ListArgs,
    now: Instant,
)
    requires
        listing(a, tasks, args, now),
        listing(b, tasks, args, now),
    ensures
        a == b,
{
    let s = selected(tasks, args, now);
    let x = choose|full: Seq<TaskView>| #[trigger]
        ordering::ordering_of(full, s) && a == limited(full, args.limit);
    let y = choose|full: Seq<TaskView>| #[trigger]
        ordering::ordering_of(full, s) && b == limited(full, args.limit);
    ordering::ordering_is_unique(x, y, s);
}

/// A listing holds no more tasks than the limit, is in order, and every task in it is one of
/// the tasks, in a state that was asked for.
pub proof fn listing_is_sound(
    r: Seq<TaskView>,
    tasks: Seq<TaskView>,
    args: ListArgs,
    now: Instant,
    i: int,
)
    requires
        listing(r, tasks, args, now),
        0 <= i < r.len(),
    ensures
        ordering::in_order(r),
        args.limit matches Some(n) ==> r.len() <= n,
        tasks.contains(r[i]),
        match json::opt_text(args.status) {
            Some(s) => named_by(s, r[i].status),
            None => args.all || !task::terminal(r[i].status),
        },
{
    broadcast use vstd::seq_lib::group_filter_ensures;

    let s = selected(tasks, args, now);
    let full = choose|full: Seq<TaskView>| #[trigger]
        ordering::ordering_of(full, s) && r == limited(full, args.limit);
    assert(full[i] == r[i]);
    assert(full.contains(r[i]));
    ordering::ordering_keeps_tasks(full, s, r[i]);
    let p = listed_state(json::opt_text(args.status), args.all);
    let q = listed_time(now, args.days);
    let k = choose|k: int| 0 <= k < s.len() && s[k] == r[i];
    task_list::lemma_filter_from(tasks.filter(p), q, k);
    let m = choose|m: int| 0 <= m < tasks.filter(p).len() && tasks.filter(p)[m] == r[i];
    assert(p(tasks.filter(p)[m]));
    task_list::lemma_filter_from(tasks, p, m);
}

/// Without a limit, a listing leaves out no task that is in a state and of a time that was
/// asked for.
pub proof fn listing_is_complete(
    r: Seq<TaskView>,
    tasks: Seq<TaskView>,
    args: ListArgs,
    now: Instant,
    t: TaskView,
)
    requires
        listing(r, tasks, args, now),
        args.limit is None,
        tasks.contains(t),
        listed_state(json::opt_text(args.status), args.all)(t),
        listed_time(now, args.days)(t),
    ensures
        r.contains(t),
{
    broadcast use vstd::seq_lib::group_filter_ensures;

    let s = selected(tasks, args, now);
    let full = choose|full: Seq<TaskView>| #[trigger]
        ordering::ordering_of(full, s) && r == limited(full, args.limit);
    let p = listed_state(json::opt_text(args.status), args.all);
    let q = listed_time(now, args.days);
    let i = choose|i: int| 0 <= i < tasks.len() && tasks[i] == t;
    assert(p(tasks[i]));
    assert(tasks.filter(p).contains(tasks[i]));
    let k = choose|k: int| 0 <= k < tasks.filter(p).len() && tasks.filter(p)[k] == t;
    assert(q(tasks.filter(p)[k]));
    assert(s.contains(tasks.filter(p)[k]));
    ordering::ordering_keeps_tasks(full, s, t);
}

/// A task passes the day filter of a listing when it was closed after the day that the listing
/// looks back to, however long ago it was created.
pub proof fn recently_closed_tasks_are_listed(t: TaskView, at: Instant, now: Instant, days: i64)
    requires
        clock::instant_of(clock::stamp_of(at)) == Some(at),
        at.later_than(days_before(now, days)),
    ensures
        listed_time(now, Some(days))(task::closed_task(t, clock::stamp_of(at))),
        listed_time(now, Some(days))(task::failed_task(t, clock::stamp_of(at))),
{
}

} // verus!
