//! What commands print.

use crate::json;
use crate::pattern;
use crate::task;
use crate::task::{Task, TaskStatus, TaskView};
use crate::text;
use crate::text::{chars_of, decimal, glue, join, string_of};
use vstd::prelude::*;
use vstd::string::*;

verus! {

/// A colour of terminal text.
#[derive(Debug, Clone, Copy, PartialEq, Eq, Structural)]
pub enum Hue {
    Plain,
    Dim,
    Red,
    Green,
    Yellow,
    Blue,
}

/// The escape sequence that switches a colour on; that of `Plain` switches all off.
pub open spec fn escape(h: Hue) -> Seq<char> {
    match h {
        Hue::Plain => "\u{1b}[0m"@,
        Hue::Dim => "\u{1b}[2m"@,
        Hue::Red => "\u{1b}[31m"@,
        Hue::Green => "\u{1b}[32m"@,
        Hue::Yellow => "\u{1b}[33m"@,
        Hue::Blue => "\u{1b}[34m"@,
    }
}

/// The escape sequence that switches a colour on.
fn escape_of(h: Hue) -> (r: &'static str)
    ensures
        r@ == escape(h),
{
    match h {
        Hue::Plain => "\u{1b}[0m",
        Hue::Dim => "\u{1b}[2m",
        Hue::Red => "\u{1b}[31m",
        Hue::Green => "\u{1b}[32m",
        Hue::Yellow => "\u{1b}[33m",
        Hue::Blue => "\u{1b}[34m",
    }
}

/// A text in a colour, where colours are used.
pub open spec fn painted(h: Hue, s: Seq<char>, use_colors: bool) -> Seq<char> {
    if use_colors {
        escape(h) + s + escape(Hue::Plain)
    } else {
        s
    }
}

/// A text in a colour, where colours are used.
fn paint(h: Hue, s: &str, use_colors: bool) -> (r: String)
    ensures
        r@ == painted(h, s@, use_colors),
{
    if use_colors {
        let mut out = escape_of(h).to_string();
        out.append(s);
        out.append(escape_of(Hue::Plain));
        out
    } else {
        s.to_string()
    }
}

/// A text with spaces behind it, up to a width.
pub open spec fn padded(s: Seq<char>, width: nat) -> Seq<char> {
    if s.len() < width {
        s + Seq::new((width - s.len()) as nat, |i: int| ' ')
    } else {
        s
    }
}

/// A text with spaces behind it, up to a width.
fn pad(s: &str, width: usize) -> (r: String)
    ensures
        r@ == padded(s@, width as nat),
{
    let mut out = s.to_string();
    let mut n: usize = chars_of(s).len();
    while n < width
        invariant
            n >= s@.len(),
            n > s@.len() ==> n <= width,
            out@ == s@ + Seq::new((n - s@.len()) as nat, |i: int| ' '),
        decreases width - n,
    {
        out.push(' ');
        n = n + 1;
        assert(out@ =~= s@ + Seq::new((n - s@.len()) as nat, |i: int| ' '));
    }
    assert(out@ =~= padded(s@, width as nat));
    out
}

/// A row of dashes.
pub open spec fn dashes(n: nat) -> Seq<char> {
    Seq::new(n, |i: int| '-')
}

/// A row of dashes.
fn rule(n: usize) -> (r: String)
    ensures
        r@ == dashes(n as nat),
{
    let mut out = String::new();
    let mut i: usize = 0;
    while i < n
        invariant
            i <= n,
            out@ == dashes(i as nat),
        decreases n - i,
    {
        out.push('-');
        i = i + 1;
        assert(out@ =~= dashes(i as nat));
    }
    out
}

/// A text that is cut to a width, with dots in place of what was cut off.
pub open spec fn cut_short(s: Seq<char>, width: nat) -> Seq<char> {
    if s.len() <= width {
        s
    } else if width < 3 {
        s.take(width as int)
    } else {
        s.take(width - 3) + "..."@
    }
}

/// A text of at most `max` characters: the text, or its beginning and three dots.
pub fn truncate(s: &str, max: usize) -> (r: String)
    ensures
        r@ == cut_short(s@, max as nat),
{
    let v = chars_of(s);
    if v.len() <= max {
        s.to_string()
    } else if max < 3 {
        let r = string_of(&v, 0, max);
        assert(r@ =~= s@.take(max as int));
        r
    } else {
        let mut r = string_of(&v, 0, max - 3);
        assert(r@ =~= s@.take(max - 3));
        r.append("...");
        r
    }
}

/// The name of a state.
pub open spec fn status_name(s: TaskStatus) -> Seq<char> {
    match s {
        TaskStatus::Open => "open"@,
        TaskStatus::InProgress => "in_progress"@,
        TaskStatus::Closed => "closed"@,
        TaskStatus::Failed => "failed"@,
    }
}

/// The name of a state.
fn name_of(s: TaskStatus) -> (r: &'static str)
    ensures
        r@ == status_name(s),
{
    match s {
        TaskStatus::Open => "open",
        TaskStatus::InProgress => "in_progress",
        TaskStatus::Closed => "closed",
        TaskStatus::Failed => "failed",
    }
}

/// The colour of a state.
pub open spec fn status_hue(s: TaskStatus) -> Hue {
    match s {
        TaskStatus::Open => Hue::Green,
        TaskStatus::InProgress => Hue::Blue,
        TaskStatus::Closed => Hue::Dim,
        TaskStatus::Failed => Hue::Red,
    }
}

/// The colour of a state.
fn hue_of(s: TaskStatus) -> (r: Hue)
    ensures
        r == status_hue(s),
{
    match s {
        TaskStatus::Open => Hue::Green,
        TaskStatus::InProgress => Hue::Blue,
        TaskStatus::Closed => Hue::Dim,
        TaskStatus::Failed => Hue::Red,
    }
}

/// The colour of a priority.
pub open spec fn priority_hue(p: u8) -> Hue {
    if p == 1 {
        Hue::Red
    } else if p == 2 {
        Hue::Yellow
    } else {
        Hue::Plain
    }
}

/// The colour of a priority.
fn hue_of_priority(p: u8) -> (r: Hue)
    ensures
        r == priority_hue(p),
{
    if p == 1 {
        Hue::Red
    } else if p == 2 {
        Hue::Yellow
    } else {
        Hue::Plain
    }
}

/// A line for an optional text.
pub open spec fn opt_line(label: Seq<char>, v: Option<Seq<char>>) -> Seq<Seq<char>> {
    match v {
        Some(s) => seq![label + s],
        None => seq![],
    }
}

/// A line for blockers, if there are any.
pub open spec fn blocked_line(label: Seq<char>, ids: Seq<Seq<char>>) -> Seq<Seq<char>> {
    if ids.len() > 0 {
        seq![label + text::joined(ids, ", "@)]
    } else {
        seq![]
    }
}

/// Appends a line.
fn push_line(lines: &mut Vec<String>, line: String)
    ensures
        pattern::texts(final(lines)@) == pattern::texts(old(lines)@).push(line@),
{
    lines.push(line);
    assert(pattern::texts(lines@) =~= pattern::texts(old(lines)@).push(line@));
}

/// Appends a line for an optional text.
fn push_opt(lines: &mut Vec<String>, label: &str, v: &Option<String>)
    ensures
        pattern::texts(final(lines)@) == pattern::texts(old(lines)@) + opt_line(
            label@,
            json::opt_text(*v),
        ),
{
    match v {
        Some(s) => {
            push_line(lines, glue(label, s.as_str()));
        },
        None => {},
    }
    assert(pattern::texts(lines@) =~= pattern::texts(old(lines)@) + opt_line(
        label@,
        json::opt_text(*v),
    ));
}

/// Appends a line for blockers, if there are any.
fn push_blocked(lines: &mut Vec<String>, label: &str, ids: &Vec<String>)
    ensures
        pattern::texts(final(lines)@) == pattern::texts(old(lines)@) + blocked_line(
            label@,
            pattern::texts(ids@),
        ),
{
    assert(pattern::texts(ids@).len() == ids@.len());
    if ids.len() > 0 {
        push_line(lines, glue(label, join(ids, ", ").as_str()));
    }
    assert(pattern::texts(lines@) =~= pattern::texts(old(lines)@) + blocked_line(
        label@,
        pattern::texts(ids@),
    ));
}

/// What is printed for a new task.
pub open spec fn created_text(t: TaskView, use_colors: bool) -> Seq<Seq<char>> {
    seq![
        painted(Hue::Green, "Created task "@ + t.id, use_colors),
        "  Title: "@ + t.title,
        "  Priority: "@ + text::decimal_text(t.priority as nat),
    ] + opt_line("  Key: "@, t.key) + blocked_line("  Blocked by: "@, t.blocked_by)
}

/// What is printed for a new task.
pub fn created_lines(t: &Task, use_colors: bool) -> (r: Vec<String>)
    ensures
        pattern::texts(r@) == created_text(t@, use_colors),
{
    let mut lines: Vec<String> = Vec::new();
    let head = glue("Created task ", t.id.as_str());
    push_line(&mut lines, paint(Hue::Green, head.as_str(), use_colors));
    push_line(&mut lines, glue("  Title: ", t.title.as_str()));
    push_line(&mut lines, glue("  Priority: ", decimal(t.priority as u64).as_str()));
    assert(pattern::texts(lines@) =~= seq![
        painted(Hue::Green, "Created task "@ + t@.id, use_colors),
        "  Title: "@ + t@.title,
        "  Priority: "@ + text::decimal_text(t@.priority as nat),
    ]);
    push_opt(&mut lines, "  Key: ", &t.key);
    push_blocked(&mut lines, "  Blocked by: ", &t.blocked_by);
    lines
}

/// What is printed for an ensured task.
pub open spec fn ensured_text(
    t: TaskView,
    key: Seq<char>,
    existed: bool,
    use_colors: bool,
) -> Seq<Seq<char>> {
    seq![
        painted(
            Hue::Green,
            (if existed {
                "Reused"@
            } else {
                "Ensured"@
            }) + " task "@ + t.id,
            use_colors,
        ),
        "  Title: "@ + t.title,
        "  Key: "@ + key,
        "  Priority: "@ + text::decimal_text(t.priority as nat),
    ] + blocked_line("  Blocked by: "@, t.blocked_by)
}

/// What is printed for an ensured task.
pub fn ensured_lines(t: &Task, key: &str, existed: bool, use_colors: bool) -> (r: Vec<String>)
    ensures
        pattern::texts(r@) == ensured_text(t@, key@, existed, use_colors),
{
    let mut lines: Vec<String> = Vec::new();
    let verb = if existed {
        "Reused"
    } else {
        "Ensured"
    };
    let head = glue(glue(verb, " task ").as_str(), t.id.as_str());
    push_line(&mut lines, paint(Hue::Green, head.as_str(), use_colors));
    push_line(&mut lines, glue("  Title: ", t.title.as_str()));
    push_line(&mut lines, glue("  Key: ", key));
    push_line(&mut lines, glue("  Priority: ", decimal(t.priority as u64).as_str()));
    assert(pattern::texts(lines@) =~= seq![
        painted(Hue::Green, verb@ + " task "@ + t@.id, use_colors),
        "  Title: "@ + t@.title,
        "  Key: "@ + key@,
        "  Priority: "@ + text::decimal_text(t@.priority as nat),
    ]);
    push_blocked(&mut lines, "  Blocked by: ", &t.blocked_by);
    lines
}

/// The key of a task, or a dash.
pub open spec fn key_cell(t: TaskView) -> Seq<char> {
    match t.key {
        Some(k) => k,
        None => "-"@,
    }
}

/// The key of a task, or a dash.
fn key_of(t: &Task) -> (r: &str)
    ensures
        r@ == key_cell(t@),
{
    match &t.key {
        Some(k) => k.as_str(),
        None => "-",
    }
}

/// The last three columns that a row of a table has: priority, title and key.
pub open spec fn common_cells(t: TaskView, use_colors: bool) -> Seq<char> {
    painted(
        priority_hue(t.priority),
        padded(text::decimal_text(t.priority as nat), 8),
        use_colors,
    ) + " "@ + padded(cut_short(t.title, 60), 60) + " "@ + padded(key_cell(t), 24)
}

/// The last three columns that a row of a table has.
fn cells_of(t: &Task, use_colors: bool) -> (r: String)
    ensures
        r@ == common_cells(t@, use_colors),
{
    let priority = pad(decimal(t.priority as u64).as_str(), 8);
    let mut out = paint(hue_of_priority(t.priority), priority.as_str(), use_colors);
    out.append(" ");
    out.append(pad(truncate(t.title.as_str(), 60).as_str(), 60).as_str());
    out.append(" ");
    out.append(pad(key_of(t), 24).as_str());
    out
}

/// A row of the table of tasks.
pub open spec fn list_row(t: TaskView, use_colors: bool) -> Seq<char> {
    painted(Hue::Dim, padded(t.id, 20), use_colors) + " "@ + painted(
        status_hue(t.status),
        padded(status_name(t.status), 15),
        use_colors,
    ) + " "@ + common_cells(t, use_colors)
}

/// A row of the table of tasks.
fn row_of(t: &Task, use_colors: bool) -> (r: String)
    ensures
        r@ == list_row(t@, use_colors),
{
    let mut out = paint(Hue::Dim, pad(t.id.as_str(), 20).as_str(), use_colors);
    out.append(" ");
    out.append(
        paint(hue_of(t.status), pad(name_of(t.status), 15).as_str(), use_colors).as_str(),
    );
    out.append(" ");
    out.append(cells_of(t, use_colors).as_str());
    out
}

/// A row of the table of ready tasks.
pub open spec fn ready_row(t: TaskView, use_colors: bool) -> Seq<char> {
    painted(Hue::Dim, padded(t.id, 20), use_colors) + " "@ + common_cells(t, use_colors)
}

/// A row of the table of ready tasks.
fn ready_row_of(t: &Task, use_colors: bool) -> (r: String)
    ensures
        r@ == ready_row(t@, use_colors),
{
    let mut out = paint(Hue::Dim, pad(t.id.as_str(), 20).as_str(), use_colors);
    out.append(" ");
    out.append(cells_of(t, use_colors).as_str());
    out
}

/// The head of the table of tasks.
pub open spec fn list_head() -> Seq<char> {
    padded("ID"@, 20) + " "@ + padded("Status"@, 15) + " "@ + padded("Priority"@, 8) + " "@
        + padded("Title"@, 60) + " "@ + padded("Key"@, 24)
}

/// What `task list` prints: a table, or that there are no tasks.
pub open spec fn list_text(tasks: Seq<TaskView>, use_colors: bool) -> Seq<Seq<char>> {
    if tasks.len() == 0 {
        seq!["No tasks found"@]
    } else {
        seq![
            painted(Hue::Dim, list_head(), use_colors),
            painted(Hue::Dim, dashes(131), use_colors),
        ] + tasks.map_values(|t: TaskView| list_row(t, use_colors))
    }
}

/// What `task list` prints.
pub fn list_lines(tasks: &Vec<Task>, use_colors: bool) -> (r: Vec<String>)
    ensures
        pattern::texts(r@) == list_text(task::views(tasks@), use_colors),
{
    let mut lines: Vec<String> = Vec::new();
    if tasks.len() == 0 {
        push_line(&mut lines, "No tasks found".to_string());
        assert(pattern::texts(lines@) =~= list_text(task::views(tasks@), use_colors));
        return lines;
    }
    let mut head = pad("ID", 20);
    head.append(" ");
    head.append(pad("Status", 15).as_str());
    head.append(" ");
    head.append(pad("Priority", 8).as_str());
    head.append(" ");
    head.append(pad("Title", 60).as_str());
    head.append(" ");
    head.append(pad("Key", 24).as_str());
    push_line(&mut lines, paint(Hue::Dim, head.as_str(), use_colors));
    push_line(&mut lines, paint(Hue::Dim, rule(131).as_str(), use_colors));
    let ghost heads = seq![
        painted(Hue::Dim, list_head(), use_colors),
        painted(Hue::Dim, dashes(131), use_colors),
    ];
    let ghost rows = task::views(tasks@).map_values(|t: TaskView| list_row(t, use_colors));
    let mut i: usize = 0;
    assert(pattern::texts(lines@) =~= heads + rows.take(0));
    while i < tasks.len()
        invariant
            i <= tasks@.len(),
            rows == task::views(tasks@).map_values(|t: TaskView| list_row(t, use_colors)),
            pattern::texts(lines@) == heads + rows.take(i as int),
        decreases tasks@.len() - i,
    {
        push_line(&mut lines, row_of(&tasks[i], use_colors));
        assert(rows.take(i + 1) =~= rows.take(i as int).push(rows[i as int]));
        assert(pattern::texts(lines@) =~= heads + rows.take(i + 1));
        i = i + 1;
    }
    assert(rows.take(i as int) =~= rows);
    lines
}

/// The head of the table of ready tasks.
pub open spec fn ready_head() -> Seq<char> {
    padded("ID"@, 20) + " "@ + padded("Priority"@, 8) + " "@ + padded("Title"@, 60) + " "@
        + padded("Key"@, 24)
}

/// What `task ready` prints: a table, or that there are no tasks.
pub open spec fn ready_text(tasks: Seq<TaskView>, use_colors: bool) -> Seq<Seq<char>> {
    if tasks.len() == 0 {
        seq!["No ready tasks"@]
    } else {
        seq![
            painted(Hue::Dim, ready_head(), use_colors),
            painted(Hue::Dim, dashes(115), use_colors),
        ] + tasks.map_values(|t: TaskView| ready_row(t, use_colors))
    }
}

/// What `task ready` prints.
pub fn ready_lines(tasks: &Vec<Task>, use_colors: bool) -> (r: Vec<String>)
    ensures
        pattern::texts(r@) == ready_text(task::views(tasks@), use_colors),
{
    let mut lines: Vec<String> = Vec::new();
    if tasks.len() == 0 {
        push_line(&mut lines, "No ready tasks".to_string());
        assert(pattern::texts(lines@) =~= ready_text(task::views(tasks@), use_colors));
        return lines;
    }
    let mut head = pad("ID", 20);
    head.append(" ");
    head.append(pad("Priority", 8).as_str());
    head.append(" ");
    head.append(pad("Title", 60).as_str());
    head.append(" ");
    head.append(pad("Key", 24).as_str());
    push_line(&mut lines, paint(Hue::Dim, head.as_str(), use_colors));
    push_line(&mut lines, paint(Hue::Dim, rule(115).as_str(), use_colors));
    let ghost heads = seq![
        painted(Hue::Dim, ready_head(), use_colors),
        painted(Hue::Dim, dashes(115), use_colors),
    ];
    let ghost rows = task::views(tasks@).map_values(|t: TaskView| ready_row(t, use_colors));
    let mut i: usize = 0;
    assert(pattern::texts(lines@) =~= heads + rows.take(0));
    while i < tasks.len()
        invariant
            i <= tasks@.len(),
            rows == task::views(tasks@).map_values(|t: TaskView| ready_row(t, use_colors)),
            pattern::texts(lines@) == heads + rows.take(i as int),
        decreases tasks@.len() - i,
    {
        push_line(&mut lines, ready_row_of(&tasks[i], use_colors));
        assert(rows.take(i + 1) =~= rows.take(i as int).push(rows[i as int]));
        assert(pattern::texts(lines@) =~= heads + rows.take(i + 1));
        i = i + 1;
    }
    assert(rows.take(i as int) =~= rows);
    lines
}

/// The identifiers of tasks.
pub open spec fn ids_text(tasks: Seq<TaskView>) -> Seq<Seq<char>> {
    tasks.map_values(|t: TaskView| t.id)
}

/// The identifiers of tasks, one per line.
pub fn id_lines(tasks: &Vec<Task>) -> (r: Vec<String>)
    ensures
        pattern::texts(r@) == ids_text(task::views(tasks@)),
{
    let ghost ids = ids_text(task::views(tasks@));
    let mut lines: Vec<String> = Vec::new();
    let mut i: usize = 0;
    assert(pattern::texts(lines@) =~= ids.take(0));
    while i < tasks.len()
        invariant
            i <= tasks@.len(),
            ids == ids_text(task::views(tasks@)),
            pattern::texts(lines@) == ids.take(i as int),
        decreases tasks@.len() - i,
    {
        push_line(&mut lines, tasks[i].id.clone());
        assert(ids.take(i + 1) =~= ids.take(i as int).push(ids[i as int]));
        i = i + 1;
    }
    assert(ids.take(i as int) =~= ids);
    lines
}

/// What `task show` prints.
pub open spec fn show_text(t: TaskView, use_colors: bool) -> Seq<Seq<char>> {
    seq![
        painted(Hue::Dim, "ID:          "@ + t.id, use_colors),
        "Title:       "@ + t.title,
    ] + opt_line("Description: "@, t.description) + seq![
        "Status:      "@ + painted(status_hue(t.status), status_name(t.status), use_colors),
        "Priority:    "@ + painted(
            priority_hue(t.priority),
            text::decimal_text(t.priority as nat),
            use_colors,
        ),
    ] + opt_line("Key:         "@, t.key) + blocked_line("Blocked by:  "@, t.blocked_by) + seq![
        "Created:     "@ + t.created,
    ] + opt_line("Started:     "@, t.started) + opt_line("Closed:      "@, t.closed)
}

/// What `task show` prints.
pub fn show_lines(t: &Task, use_colors: bool) -> (r: Vec<String>)
    ensures
        pattern::texts(r@) == show_text(t@, use_colors),
{
    let mut lines: Vec<String> = Vec::new();
    let id = glue("ID:          ", t.id.as_str());
    push_line(&mut lines, paint(Hue::Dim, id.as_str(), use_colors));
    push_line(&mut lines, glue("Title:       ", t.title.as_str()));
    let ghost a = seq![
        painted(Hue::Dim, "ID:          "@ + t@.id, use_colors),
        "Title:       "@ + t@.title,
    ];
    assert(pattern::texts(lines@) =~= a);
    push_opt(&mut lines, "Description: ", &t.description);
    let ghost b = a + opt_line("Description: "@, t@.description);
    let status = paint(hue_of(t.status), name_of(t.status), use_colors);
    push_line(&mut lines, glue("Status:      ", status.as_str()));
    let priority = paint(
        hue_of_priority(t.priority),
        decimal(t.priority as u64).as_str(),
        use_colors,
    );
    push_line(&mut lines, glue("Priority:    ", priority.as_str()));
    let ghost c = b + seq![
        "Status:      "@ + painted(status_hue(t@.status), status_name(t@.status), use_colors),
        "Priority:    "@ + painted(
            priority_hue(t@.priority),
            text::decimal_text(t@.priority as nat),
            use_colors,
        ),
    ];
    assert(pattern::texts(lines@) =~= c);
    push_opt(&mut lines, "Key:         ", &t.key);
    push_blocked(&mut lines, "Blocked by:  ", &t.blocked_by);
    let ghost d = c + opt_line("Key:         "@, t@.key) + blocked_line(
        "Blocked by:  "@,
        t@.blocked_by,
    );
    push_line(&mut lines, glue("Created:     ", t.created.as_str()));
    assert(pattern::texts(lines@) =~= d + seq!["Created:     "@ + t@.created]);
    push_opt(&mut lines, "Started:     ", &t.started);
    push_opt(&mut lines, "Closed:      ", &t.closed);
    lines
}

/// What is printed for a change of state.
pub open spec fn change_text(
    h: Hue,
    label: Seq<char>,
    id: Seq<char>,
    title: Seq<char>,
    use_colors: bool,
) -> Seq<char> {
    painted(h, label + id + " - "@ + title, use_colors)
}

/// What is printed for a change of state.
pub fn change_line(h: Hue, label: &str, id: &str, title: &str, use_colors: bool) -> (r: String)
    ensures
        r@ == change_text(h, label@, id@, title@, use_colors),
{
    let mut out = label.to_string();
    out.append(id);
    out.append(" - ");
    out.append(title);
    paint(h, out.as_str(), use_colors)
}

} // verus!
