//! What commands print, line by line.

use crate::display;
use crate::display::{
    change_line, created_lines, ensured_lines, id_lines, list_lines, ready_lines, show_lines, Hue,
};
use crate::pattern;
use crate::task;
use crate::task::{Task, TaskStatus, TaskView};
use crate::text;
use vstd::prelude::*;
use vstd::string::*;

verus! {

/// A text in a cell of a table: at its left, with spaces up to the width; a wider text is not
/// cut.
pub open spec fn cell(s: Seq<char>, width: nat) -> Seq<char> {
    Seq::new(
        if s.len() < width {
            width
        } else {
            s.len()
        },
        |k: int|
            if k < s.len() {
                s[k]
            } else {
                ' '
            },
    )
}

/// A text behind the escape sequence of a colour and before the one that ends it, where
/// colours are wanted.
pub open spec fn tinted(code: Seq<char>, s: Seq<char>, use_colors: bool) -> Seq<char> {
    if use_colors {
        code + s + "\u{1b}[0m"@
    } else {
        s
    }
}

/// A title as a table shows it: whole up to 60 characters, else the first 57 and three dots.
pub open spec fn shortened(title: Seq<char>) -> Seq<char> {
    if title.len() <= 60 {
        title
    } else {
        title.take(57) + "..."@
    }
}

/// The name of a state as it is printed.
pub open spec fn shown_state(s: TaskStatus) -> Seq<char> {
    if s == TaskStatus::Open {
        "open"@
    } else if s == TaskStatus::InProgress {
        "in_progress"@
    } else if s == TaskStatus::Closed {
        "closed"@
    } else {
        "failed"@
    }
}

/// The colour of a state: green, blue, dim and red.
pub open spec fn state_code(s: TaskStatus) -> Seq<char> {
    if s == TaskStatus::Open {
        "\u{1b}[32m"@
    } else if s == TaskStatus::InProgress {
        "\u{1b}[34m"@
    } else if s == TaskStatus::Closed {
        "\u{1b}[2m"@
    } else {
        "\u{1b}[31m"@
    }
}

/// The colour of a priority: red for 1, yellow for 2, none for others.
pub open spec fn priority_code(p: u8) -> Seq<char> {
    if p == 1 {
        "\u{1b}[31m"@
    } else if p == 2 {
        "\u{1b}[33m"@
    } else {
        "\u{1b}[0m"@
    }
}

/// The key of a task as a table shows it.
pub open spec fn shown_key(t: TaskView) -> Seq<char> {
    if t.key is Some {
        t.key->0
    } else {
        "-"@
    }
}

/// The cells for priority, title and key.
pub open spec fn last_cells(t: TaskView, use_colors: bool) -> Seq<char> {
    tinted(
        priority_code(t.priority),
        cell(text::decimal_text(t.priority as nat), 8),
        use_colors,
    ) + " "@ + cell(shortened(t.title), 60) + " "@ + cell(shown_key(t), 24)
}

proof fn lemma_cell(s: Seq<char>, width: nat)
    ensures
        display::padded(s, width) == cell(s, width),
{
    assert(display::padded(s, width) =~= cell(s, width));
}

proof fn lemma_last_cells(t: TaskView, use_colors: bool)
    ensures
        display::common_cells(t, use_colors) == last_cells(t, use_colors),
{
    lemma_cell(text::decimal_text(t.priority as nat), 8);
    lemma_cell(shortened(t.title), 60);
    lemma_cell(shown_key(t), 24);
}

/// Rows of tables stand in columns: identifier, state, priority, title and key, each padded to
/// its width and parted from the next by a space.
pub proof fn list_tables_have_columns(tasks: Vec<Task>, use_colors: bool, r: Vec<String>)
    requires
        call_ensures(list_lines, (&tasks, use_colors), r),
    ensures
        tasks@.len() == 0 ==> r@.len() == 1 && r@[0]@ == "No tasks found"@,
        tasks@.len() > 0 ==> {
            &&& r@.len() == tasks@.len() + 2
            &&& r@[0]@ == tinted(
                "\u{1b}[2m"@,
                cell("ID"@, 20) + " "@ + cell("Status"@, 15) + " "@ + cell("Priority"@, 8) + " "@
                    + cell("Title"@, 60) + " "@ + cell("Key"@, 24),
                use_colors,
            )
            &&& r@[1]@ == tinted("\u{1b}[2m"@, Seq::new(131, |k: int| '-'), use_colors)
            &&& forall|i: int|
                2 <= i < r@.len() ==> (#[trigger] r@[i])@ == tinted(
                    "\u{1b}[2m"@,
                    cell(tasks@[i - 2]@.id, 20),
                    use_colors,
                ) + " "@ + tinted(
                    state_code(tasks@[i - 2].status),
                    cell(shown_state(tasks@[i - 2].status), 15),
                    use_colors,
                ) + " "@ + last_cells(tasks@[i - 2]@, use_colors)
        },
{
    let lines = pattern::texts(r@);
    let s = task::views(tasks@);
    assert(lines.len() == r@.len() && s.len() == tasks@.len());
    assert forall|i: int| 0 <= i < r@.len() implies lines[i] == (#[trigger] r@[i])@ by {}
    if tasks@.len() == 0 {
        assert(lines[0] == r@[0]@);
    } else {
        lemma_cell("ID"@, 20);
        lemma_cell("Status"@, 15);
        lemma_cell("Priority"@, 8);
        lemma_cell("Title"@, 60);
        lemma_cell("Key"@, 24);
        assert(display::dashes(131) =~= Seq::new(131, |k: int| '-'));
        assert(lines[0] == r@[0]@ && lines[1] == r@[1]@);
        assert forall|i: int| 2 <= i < r@.len() implies (#[trigger] r@[i])@ == tinted(
            "\u{1b}[2m"@,
            cell(tasks@[i - 2]@.id, 20),
            use_colors,
        ) + " "@ + tinted(
            state_code(tasks@[i - 2].status),
            cell(shown_state(tasks@[i - 2].status), 15),
            use_colors,
        ) + " "@ + last_cells(tasks@[i - 2]@, use_colors) by {
            let t = s[i - 2];
            assert(lines[i] == display::list_row(t, use_colors));
            lemma_cell(t.id, 20);
            lemma_cell(shown_state(t.status), 15);
            lemma_last_cells(t, use_colors);
        }
    }
}

/// Rows of the table of ready tasks stand in columns: identifier, priority, title and key.
pub proof fn ready_tables_have_columns(tasks: Vec<Task>, use_colors: bool, r: Vec<String>)
    requires
        call_ensures(ready_lines, (&tasks, use_colors), r),
    ensures
        tasks@.len() == 0 ==> r@.len() == 1 && r@[0]@ == "No ready tasks"@,
        tasks@.len() > 0 ==> {
            &&& r@.len() == tasks@.len() + 2
            &&& r@[0]@ == tinted(
                "\u{1b}[2m"@,
                cell("ID"@, 20) + " "@ + cell("Priority"@, 8) + " "@ + cell("Title"@, 60) + " "@
                    + cell("Key"@, 24),
                use_colors,
            )
            &&& r@[1]@ == tinted("\u{1b}[2m"@, Seq::new(115, |k: int| '-'), use_colors)
            &&& forall|i: int|
                2 <= i < r@.len() ==> (#[trigger] r@[i])@ == tinted(
                    "\u{1b}[2m"@,
                    cell(tasks@[i - 2]@.id, 20),
                    use_colors,
                ) + " "@ + last_cells(tasks@[i - 2]@, use_colors)
        },
{
    let lines = pattern::texts(r@);
    let s = task::views(tasks@);
    assert(lines.len() == r@.len() && s.len() == tasks@.len());
    if tasks@.len() == 0 {
        assert(lines[0] == r@[0]@);
    } else {
        lemma_cell("ID"@, 20);
        lemma_cell("Priority"@, 8);
        lemma_cell("Title"@, 60);
        lemma_cell("Key"@, 24);
        assert(display::dashes(115) =~= Seq::new(115, |k: int| '-'));
        assert(lines[0] == r@[0]@ && lines[1] == r@[1]@);
        assert forall|i: int| 2 <= i < r@.len() implies (#[trigger] r@[i])@ == tinted(
            "\u{1b}[2m"@,
            cell(tasks@[i - 2]@.id, 20),
            use_colors,
        ) + " "@ + last_cells(tasks@[i - 2]@, use_colors) by {
            let t = s[i - 2];
            assert(lines[i] == r@[i]@);
            assert(lines[i] == display::ready_row(t, use_colors));
            lemma_cell(t.id, 20);
            lemma_last_cells(t, use_colors);
        }
    }
}

/// Quiet output is the identifiers, one line for each task.
pub proof fn quiet_output_is_identifiers(tasks: Vec<Task>, r: Vec<String>)
    requires
        call_ensures(id_lines, (&tasks,), r),
    ensures
        r@.len() == tasks@.len(),
        forall|i: int| 0 <= i < r@.len() ==> (#[trigger] r@[i])@ == tasks@[i].id@,
{
    let lines = pattern::texts(r@);
    assert(lines.len() == r@.len());
    assert(lines.len() == tasks@.len());
    assert forall|i: int| 0 <= i < r@.len() implies (#[trigger] r@[i])@ == tasks@[i].id@ by {
        assert(lines[i] == r@[i]@);
        assert(lines[i] == tasks@[i]@.id);
    }
}

/// A new task is reported by its identifier, title and priority, by its key where it has one,
/// and by its blockers where it has any.
pub proof fn new_tasks_are_reported(t: Task, use_colors: bool, r: Vec<String>)
    requires
        call_ensures(created_lines, (&t, use_colors), r),
    ensures
        ({
            let head = seq![
                tinted("\u{1b}[32m"@, "Created task "@ + t.id@, use_colors),
                "  Title: "@ + t.title@,
                "  Priority: "@ + text::decimal_text(t.priority as nat),
            ];
            let key: Seq<Seq<char>> = match t.key {
                Some(k) => seq!["  Key: "@ + k@],
                None => seq![],
            };
            let blockers: Seq<Seq<char>> = if t.blocked_by@.len() > 0 {
                seq!["  Blocked by: "@ + text::joined(t@.blocked_by, ", "@)]
            } else {
                seq![]
            };
            pattern::texts(r@) == head + key + blockers
        }),
{
    assert(t@.blocked_by.len() == t.blocked_by@.len());
}

/// An ensured task is reported as reused where its key was known and as ensured where not, by
/// its identifier, title, key and priority, and by its blockers where it has any.
pub proof fn ensured_tasks_are_reported(
    t: Task,
    key: &str,
    existed: bool,
    use_colors: bool,
    r: Vec<String>,
)
    requires
        call_ensures(ensured_lines, (&t, key, existed, use_colors), r),
    ensures
        ({
            let verb = if existed {
                "Reused"@
            } else {
                "Ensured"@
            };
            let head = seq![
                tinted("\u{1b}[32m"@, verb + " task "@ + t.id@, use_colors),
                "  Title: "@ + t.title@,
                "  Key: "@ + key@,
                "  Priority: "@ + text::decimal_text(t.priority as nat),
            ];
            let blockers: Seq<Seq<char>> = if t.blocked_by@.len() > 0 {
                seq!["  Blocked by: "@ + text::joined(t@.blocked_by, ", "@)]
            } else {
                seq![]
            };
            pattern::texts(r@) == head + blockers
        }),
{
    assert(t@.blocked_by.len() == t.blocked_by@.len());
}

/// A line for a text that may not be there.
pub open spec fn line_for(label: Seq<char>, s: Option<String>) -> Seq<Seq<char>> {
    if s is Some {
        seq![label + s->0@]
    } else {
        seq![]
    }
}

/// A task is shown by its fields, one line for each that it has: identifier, title,
/// description, state, priority, key, blockers, and the times of creation, start and end.
pub proof fn shown_tasks_have_every_field(t: Task, use_colors: bool, r: Vec<String>)
    requires
        call_ensures(show_lines, (&t, use_colors), r),
    ensures
        ({
            let blockers: Seq<Seq<char>> = if t.blocked_by@.len() > 0 {
                seq!["Blocked by:  "@ + text::joined(t@.blocked_by, ", "@)]
            } else {
                seq![]
            };
            pattern::texts(r@) == seq![
                tinted("\u{1b}[2m"@, "ID:          "@ + t.id@, use_colors),
                "Title:       "@ + t.title@,
            ] + line_for("Description: "@, t.description) + seq![
                "Status:      "@ + tinted(state_code(t.status), shown_state(t.status), use_colors),
                "Priority:    "@ + tinted(
                    priority_code(t.priority),
                    text::decimal_text(t.priority as nat),
                    use_colors,
                ),
            ] + line_for("Key:         "@, t.key) + blockers + seq![
                "Created:     "@ + t.created@,
            ] + line_for("Started:     "@, t.started) + line_for("Closed:      "@, t.closed)
        }),
{
    assert(t@.blocked_by.len() == t.blocked_by@.len());
}

/// A change of state is reported by its label, the identifier and the title, in one line and
/// in the colour that was asked for.
pub proof fn changes_are_reported(
    h: Hue,
    label: &str,
    id: &str,
    title: &str,
    use_colors: bool,
    r: String,
)
    requires
        call_ensures(change_line, (h, label, id, title, use_colors), r),
    ensures
        !use_colors ==> r@ == label@ + id@ + " - "@ + title@,
        use_colors ==> r@ == (match h {
            Hue::Plain => "\u{1b}[0m"@,
            Hue::Dim => "\u{1b}[2m"@,
            Hue::Red => "\u{1b}[31m"@,
            Hue::Green => "\u{1b}[32m"@,
            Hue::Yellow => "\u{1b}[33m"@,
            Hue::Blue => "\u{1b}[34m"@,
        }) + (label@ + id@ + " - "@ + title@) + "\u{1b}[0m"@,
{
}

} // verus!
