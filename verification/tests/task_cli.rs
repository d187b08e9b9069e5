//! The commands of the `task` namespace.

use ralph_tasks::clock::{now, Instant};
use ralph_tasks::display::truncate;
use ralph_tasks::task::{MetaValue, Task, TaskStatus};
use ralph_tasks::task_cli::{
    add_common_task_fields, days_are_representable, execute, filter_tasks_for_list, parse_meta,
    read_current_loop_id, status_matches_filter, AddArgs, CloseArgs, CommandResult, EnsureArgs,
    FailArgs, ListArgs, Output, OutputFormat, ReadyArgs, ReopenArgs, ShowArgs, StartArgs,
    TaskArgs, TaskCommands,
};
use ralph_tasks::task_source::TaskSource;
use ralph_tasks::task_sources::mock::{MockError, MockTaskSource};

fn list_args(status: Option<&str>) -> ListArgs {
    ListArgs {
        status: status.map(String::from),
        days: None,
        limit: None,
        all: true,
        format: OutputFormat::Quiet,
    }
}

#[test]
fn test_list_status_filter_accepts_in_progress() {
    let mut open_task = Task::new("Open".to_string(), 2);
    open_task.status = TaskStatus::Open;
    let mut in_progress = Task::new("In progress".to_string(), 2);
    in_progress.status = TaskStatus::InProgress;

    let tasks = vec![open_task, in_progress];

    let args = ListArgs {
        status: Some("in_progress".to_string()),
        days: None,
        limit: None,
        all: true,
        format: OutputFormat::Quiet,
    };

    let filtered = filter_tasks_for_list(tasks, &args, now());
    assert_eq!(filtered.len(), 1);
    assert_eq!(filtered[0].status, TaskStatus::InProgress);
}

#[test]
fn test_read_current_loop_id_ignores_empty_marker() {
    assert_eq!(read_current_loop_id(&Some("  ".to_string())), None);
    assert_eq!(read_current_loop_id(&None), None);
    assert_eq!(
        read_current_loop_id(&Some(" loop-1\n".to_string())).as_deref(),
        Some("loop-1")
    );
}

fn at(seconds: i64) -> Instant {
    Instant { seconds, nanos: 0 }
}

fn task(id: &str, status: TaskStatus, priority: u8, created: &str) -> Task {
    let mut t = Task::new(format!("Title {id}"), priority);
    t.id = id.to_string();
    t.status = status;
    t.created = created.to_string();
    t
}

fn ids(tasks: Vec<Task>) -> Vec<String> {
    tasks.into_iter().map(|t| t.id).collect()
}

#[test]
fn states_are_named_in_any_spelling() {
    assert!(status_matches_filter(TaskStatus::InProgress, "In-Progress"));
    assert!(status_matches_filter(TaskStatus::InProgress, "INPROGRESS"));
    assert!(status_matches_filter(TaskStatus::Open, "O_P-E_N"));
    assert!(status_matches_filter(TaskStatus::Closed, "Closed"));
    assert!(status_matches_filter(TaskStatus::Failed, "FAILED"));
    assert!(!status_matches_filter(TaskStatus::Open, "open "));
    assert!(!status_matches_filter(TaskStatus::Open, "closed"));
}

#[test]
fn listings_are_ordered_and_limited() {
    let tasks = vec![
        task("f", TaskStatus::Failed, 1, "2026-01-01"),
        task("c", TaskStatus::Closed, 1, "2026-01-01"),
        task("o2", TaskStatus::Open, 2, "2026-01-02"),
        task("o1", TaskStatus::Open, 2, "2026-01-01"),
        task("same1", TaskStatus::Open, 3, "2026-01-01"),
        task("same2", TaskStatus::Open, 3, "2026-01-01"),
        task("o0", TaskStatus::Open, 1, "2026-01-09"),
        task("p", TaskStatus::InProgress, 5, "2026-01-01"),
    ];
    let mut args = list_args(None);
    assert_eq!(
        ids(filter_tasks_for_list(tasks.clone(), &args, at(0))),
        vec!["p", "o0", "o1", "o2", "same1", "same2", "c", "f"]
    );
    args.all = false;
    assert_eq!(
        ids(filter_tasks_for_list(tasks.clone(), &args, at(0))),
        vec!["p", "o0", "o1", "o2", "same1", "same2"]
    );
    args.limit = Some(2);
    assert_eq!(
        ids(filter_tasks_for_list(tasks.clone(), &args, at(0))),
        vec!["p", "o0"]
    );
    args.limit = Some(0);
    assert!(filter_tasks_for_list(tasks.clone(), &args, at(0)).is_empty());
    args.limit = None;
    args.status = Some("closed".to_string());
    assert_eq!(ids(filter_tasks_for_list(tasks, &args, at(0))), vec!["c"]);
}

#[test]
fn days_look_at_creation_and_closing() {
    let midnight = 1_774_656_000; // 2026-03-28T00:00:00Z
    let mut closed = task("closed", TaskStatus::Closed, 1, "2020-01-01T00:00:00Z");
    closed.closed = Some("2026-03-27T00:00:01Z".to_string());
    let mut bad = task("bad", TaskStatus::Closed, 1, "yesterday");
    bad.closed = Some("never".to_string());
    let tasks = vec![
        task("edge", TaskStatus::Open, 1, "2026-03-27T00:00:00Z"),
        task("after", TaskStatus::Open, 2, "2026-03-27T01:00:00.000000001+01:00"),
        task("old", TaskStatus::Open, 3, "2026-03-26T23:59:59Z"),
        closed,
        bad,
    ];
    let mut args = list_args(None);
    args.days = Some(1);
    assert_eq!(
        ids(filter_tasks_for_list(tasks.clone(), &args, at(midnight))),
        vec!["after", "closed"]
    );
    args.days = Some(2);
    assert_eq!(
        ids(filter_tasks_for_list(tasks, &args, at(midnight))),
        vec!["edge", "after", "old", "closed"]
    );
}

#[test]
fn a_task_closed_now_is_recent() {
    let t = now();
    let mut x = task("x", TaskStatus::Open, 1, "2000-01-01T00:00:00Z");
    x.close_at(t);
    let mut args = list_args(None);
    args.days = Some(1);
    assert_eq!(filter_tasks_for_list(vec![x], &args, t).len(), 1);
}

#[test]
fn days_out_of_range_are_told() {
    assert!(days_are_representable(None, at(0)));
    assert!(days_are_representable(Some(-5), at(0)));
    assert!(!days_are_representable(Some(i64::MAX), at(0)));
    assert!(!days_are_representable(Some(i64::MIN), at(0)));
    assert!(days_are_representable(Some(96_465_292), at(0)));
    assert!(!days_are_representable(Some(96_465_293), at(0)));
}

#[test]
fn metadata_arguments() {
    let args: Vec<String> = ["filter=status=open", "plain", "k=1", "k=2", "=v", "e="]
        .iter()
        .map(|s| s.to_string())
        .collect();
    let text = |k: &str, v: &str| (k.to_string(), MetaValue::Text(v.to_string()));
    assert_eq!(
        parse_meta(&args),
        vec![text("filter", "status=open"), text("k", "2"), text("", "v"), text("e", "")]
    );
}

#[test]
fn common_fields_are_added() {
    let t = Task::new("T".into(), 3);
    let got = add_common_task_fields(
        t.clone(),
        &Some("loop-9\n".to_string()),
        Some("D".to_string()),
        Some(" a, ,b,,c ".to_string()),
    );
    assert_eq!(got.loop_id.as_deref(), Some("loop-9"));
    assert_eq!(got.description.as_deref(), Some("D"));
    assert_eq!(got.blocked_by, vec!["a", "b", "c"]);
    assert_eq!(add_common_task_fields(t.clone(), &None, None, None), t);
}

fn run(source: &mut MockTaskSource, command: TaskCommands, use_colors: bool) -> CommandResult {
    let args = TaskArgs {
        command,
        root: None,
    };
    execute(args, source, &Some("cur".to_string()), at(1_774_692_000), use_colors)
}

fn lines(r: CommandResult) -> Vec<String> {
    match r {
        Ok(Output::Lines(l)) => l,
        other => panic!("expected lines, got: {other:?}"),
    }
}

fn add_args(format: OutputFormat) -> AddArgs {
    AddArgs {
        title: "Write it".into(),
        priority: 2,
        description: Some("D".into()),
        blocked_by: Some("x,y".into()),
        meta: vec!["a=b".into()],
        format,
    }
}

#[test]
fn add_prints_the_new_task() {
    let mut s = MockTaskSource::new();
    let out = lines(run(&mut s, TaskCommands::Add(add_args(OutputFormat::Table)), false));
    assert_eq!(
        out,
        vec![
            "Created task task-1774692000-0",
            "  Title: Write it",
            "  Priority: 2",
            "  Blocked by: x, y"
        ]
    );
    let t = s.get("task-1774692000-0").unwrap().unwrap();
    assert_eq!(t.created, "2026-03-28T10:00:00+00:00");
    assert_eq!(t.loop_id.as_deref(), Some("cur"));
    assert_eq!(t.metadata, vec![("a".to_string(), MetaValue::Text("b".to_string()))]);
    let out = run(&mut s, TaskCommands::Add(add_args(OutputFormat::Json)), false);
    assert_eq!(out, Ok(Output::Json(t)));
    let out = lines(run(&mut s, TaskCommands::Add(add_args(OutputFormat::Quiet)), true));
    assert_eq!(out, vec!["task-1774692000-0"]);
    let out = lines(run(&mut s, TaskCommands::Add(add_args(OutputFormat::Table)), true));
    assert_eq!(out[0], "\u{1b}[32mCreated task task-1774692000-0\u{1b}[0m");
    s.inject_error("add", MockError::Auth("no".into()));
    let out = run(&mut s, TaskCommands::Add(add_args(OutputFormat::Table)), false);
    assert_eq!(out, Err("Failed to add task: auth error: no".to_string()));
}

fn ensure_args(format: OutputFormat) -> EnsureArgs {
    EnsureArgs {
        title: "Keyed".into(),
        key: "k:1".into(),
        priority: 1,
        description: None,
        blocked_by: None,
        meta: vec![],
        format,
    }
}

#[test]
fn ensure_says_whether_the_task_was_there() {
    let mut s = MockTaskSource::new();
    let out = lines(run(&mut s, TaskCommands::Ensure(ensure_args(OutputFormat::Table)), false));
    assert_eq!(
        out,
        vec![
            "Ensured task task-1774692000-0",
            "  Title: Keyed",
            "  Key: k:1",
            "  Priority: 1"
        ]
    );
    let out = lines(run(&mut s, TaskCommands::Ensure(ensure_args(OutputFormat::Table)), true));
    assert_eq!(out[0], "\u{1b}[32mReused task task-1774692000-0\u{1b}[0m");
    assert_eq!(s.all().unwrap().len(), 1);
    let out = lines(run(&mut s, TaskCommands::Ensure(ensure_args(OutputFormat::Quiet)), false));
    assert_eq!(out, vec!["task-1774692000-0"]);
    let out = run(&mut s, TaskCommands::Ensure(ensure_args(OutputFormat::Json)), false);
    assert!(matches!(out, Ok(Output::Json(_))));
    s.inject_error("ensure", MockError::Config("bad".into()));
    let out = run(&mut s, TaskCommands::Ensure(ensure_args(OutputFormat::Table)), false);
    assert_eq!(out, Err("Failed to ensure task: config error: bad".to_string()));
}

#[test]
fn list_prints_a_table() {
    let mut s = MockTaskSource::with_tasks(vec![
        task("a", TaskStatus::Open, 1, "2026"),
        task("b", TaskStatus::InProgress, 3, "2026").with_key(Some("key".into())),
    ]);
    let mut args = list_args(None);
    args.format = OutputFormat::Table;
    let out = lines(run(&mut s, TaskCommands::List(args), false));
    assert_eq!(
        out[0],
        format!("{:<20} {:<15} {:<8} {:<60} {:<24}", "ID", "Status", "Priority", "Title", "Key")
    );
    assert_eq!(out[1], "-".repeat(131));
    assert_eq!(
        out[2],
        format!("{:<20} {:<15} {:<8} {:<60} {:<24}", "b", "in_progress", 3, "Title b", "key")
    );
    assert_eq!(
        out[3],
        format!("{:<20} {:<15} {:<8} {:<60} {:<24}", "a", "open", 1, "Title a", "-")
    );
    let mut args = list_args(Some("open"));
    args.format = OutputFormat::Table;
    let out = lines(run(&mut s, TaskCommands::List(args), true));
    let (dim, reset) = ("\u{1b}[2m", "\u{1b}[0m");
    assert_eq!(
        out[0],
        format!(
            "{dim}{:<20} {:<15} {:<8} {:<60} {:<24}{reset}",
            "ID", "Status", "Priority", "Title", "Key"
        )
    );
    assert_eq!(out[1], format!("{dim}{}{reset}", "-".repeat(131)));
    assert_eq!(
        out[2],
        format!(
            "{dim}{:<20}{reset} \u{1b}[32m{:<15}{reset} \u{1b}[31m{:<8}{reset} {:<60} {:<24}",
            "a", "open", 1, "Title a", "-"
        )
    );
    let out = lines(run(&mut s, TaskCommands::List(list_args(None)), false));
    assert_eq!(out, vec!["b", "a"]);
    let mut args = list_args(Some("closed"));
    args.format = OutputFormat::Table;
    assert_eq!(
        lines(run(&mut s, TaskCommands::List(args), false)),
        vec!["No tasks found"]
    );
    let mut args = list_args(None);
    args.format = OutputFormat::Json;
    match run(&mut s, TaskCommands::List(args), false) {
        Ok(Output::PrettyJsonList(v)) => assert_eq!(ids(v), vec!["b", "a"]),
        other => panic!("expected JSON, got: {other:?}"),
    }
}

#[test]
fn ready_shows_the_current_loop() {
    let mut s = MockTaskSource::with_tasks(vec![
        task("mine", TaskStatus::Open, 2, "2026").with_loop_id(Some("cur".into())),
        task("other", TaskStatus::Open, 4, "2026"),
    ]);
    let args = |all, format| TaskCommands::Ready(ReadyArgs { all, format });
    let out = lines(run(&mut s, args(true, OutputFormat::Quiet), false));
    assert_eq!(out, vec!["mine", "other"]);
    let out = lines(run(&mut s, args(false, OutputFormat::Table), false));
    assert_eq!(
        out,
        vec![
            format!("{:<20} {:<8} {:<60} {:<24}", "ID", "Priority", "Title", "Key"),
            "-".repeat(115),
            format!("{:<20} {:<8} {:<60} {:<24}", "mine", 2, "Title mine", "-"),
        ]
    );
    let out = lines(run(&mut s, args(false, OutputFormat::Table), true));
    assert_eq!(
        out[2],
        format!(
            "\u{1b}[2m{:<20}\u{1b}[0m \u{1b}[33m{:<8}\u{1b}[0m {:<60} {:<24}",
            "mine", 2, "Title mine", "-"
        )
    );
    let mut empty = MockTaskSource::new();
    let out = lines(run(&mut empty, args(false, OutputFormat::Table), true));
    assert_eq!(out, vec!["No ready tasks"]);
    assert!(matches!(
        run(&mut empty, args(false, OutputFormat::Json), true),
        Ok(Output::PrettyJsonList(_))
    ));
}

#[test]
fn changes_of_state_print_one_line() {
    let mut s = MockTaskSource::with_tasks(vec![task("a", TaskStatus::Open, 1, "2026")]);
    let id = || "a".to_string();
    let start = TaskCommands::Start(StartArgs { id: id() });
    assert_eq!(lines(run(&mut s, start, false)), vec!["Started task: a - Title a"]);
    let close = TaskCommands::Close(CloseArgs { id: id() });
    assert_eq!(
        lines(run(&mut s, close, true)),
        vec!["\u{1b}[32mClosed task: a - Title a\u{1b}[0m"]
    );
    let reopen = TaskCommands::Reopen(ReopenArgs { id: id() });
    assert_eq!(
        lines(run(&mut s, reopen, true)),
        vec!["\u{1b}[33mReopened task: a - Title a\u{1b}[0m"]
    );
    let fail = TaskCommands::Fail(FailArgs { id: id() });
    assert_eq!(
        lines(run(&mut s, fail, true)),
        vec!["\u{1b}[31mFailed task: a - Title a\u{1b}[0m"]
    );
    let start = TaskCommands::Start(StartArgs { id: id() });
    assert_eq!(
        lines(run(&mut s, start, true)),
        vec!["\u{1b}[34mStarted task: a - Title a\u{1b}[0m"]
    );
}

#[test]
fn unknown_tasks_and_errors_are_reported() {
    let mut s = MockTaskSource::new();
    let id = || "zz".to_string();
    let missing = Err("Task zz not found".to_string());
    let start = || TaskCommands::Start(StartArgs { id: id() });
    let close = || TaskCommands::Close(CloseArgs { id: id() });
    let fail = || TaskCommands::Fail(FailArgs { id: id() });
    let reopen = || TaskCommands::Reopen(ReopenArgs { id: id() });
    let show = TaskCommands::Show(ShowArgs {
        id: id(),
        format: OutputFormat::Table,
    });
    assert_eq!(run(&mut s, start(), false), missing);
    assert_eq!(run(&mut s, close(), false), missing);
    assert_eq!(run(&mut s, fail(), false), missing);
    assert_eq!(run(&mut s, reopen(), false), missing);
    assert_eq!(run(&mut s, show, false), missing);
    for name in ["start", "close", "fail", "reopen"] {
        s.inject_error(name, MockError::Other("e".into()));
    }
    let failed = |verb: &str| Err(format!("Failed to {verb} task: task source error: e"));
    assert_eq!(run(&mut s, start(), false), failed("start"));
    assert_eq!(run(&mut s, close(), false), failed("close"));
    assert_eq!(run(&mut s, fail(), false), failed("fail"));
    assert_eq!(run(&mut s, reopen(), false), failed("reopen"));
}

#[test]
fn failed_queries_are_reported() {
    let mut s = MockTaskSource::new();
    for name in ["all", "ready", "get"] {
        s.inject_error(name, MockError::Auth("e".into()));
    }
    let failed = |what: &str| Err(format!("Failed to {what}: auth error: e"));
    let show = TaskCommands::Show(ShowArgs {
        id: "a".into(),
        format: OutputFormat::Table,
    });
    assert_eq!(run(&mut s, show, false), failed("get task"));
    let ready = TaskCommands::Ready(ReadyArgs {
        format: OutputFormat::Table,
        all: true,
    });
    assert_eq!(run(&mut s, ready, false), failed("get ready tasks"));
    assert_eq!(run(&mut s, TaskCommands::List(list_args(None)), false), failed("list tasks"));
}

#[test]
fn show_prints_every_field_that_is_set() {
    let mut t = task("a", TaskStatus::Failed, 2, "C")
        .with_description(Some("D".into()))
        .with_key(Some("K".into()))
        .with_blocker("x".into())
        .with_blocker("y".into());
    t.started = Some("S".into());
    t.closed = Some("E".into());
    let bare = task("b", TaskStatus::InProgress, 5, "C");
    let mut s = MockTaskSource::with_tasks(vec![t.clone(), bare]);
    let show = |id: &str, format| {
        TaskCommands::Show(ShowArgs {
            id: id.to_string(),
            format,
        })
    };
    assert_eq!(
        lines(run(&mut s, show("a", OutputFormat::Table), false)),
        vec![
            "ID:          a",
            "Title:       Title a",
            "Description: D",
            "Status:      failed",
            "Priority:    2",
            "Key:         K",
            "Blocked by:  x, y",
            "Created:     C",
            "Started:     S",
            "Closed:      E"
        ]
    );
    assert_eq!(
        lines(run(&mut s, show("b", OutputFormat::Table), true)),
        vec![
            "\u{1b}[2mID:          b\u{1b}[0m",
            "Title:       Title b",
            "Status:      \u{1b}[34min_progress\u{1b}[0m",
            "Priority:    \u{1b}[0m5\u{1b}[0m",
            "Created:     C"
        ]
    );
    assert_eq!(
        run(&mut s, show("a", OutputFormat::Json), false),
        Ok(Output::PrettyJson(t))
    );
    assert_eq!(lines(run(&mut s, show("a", OutputFormat::Quiet), false)), vec!["a"]);
}

#[test]
fn long_titles_are_cut() {
    assert_eq!(truncate("short", 60), "short");
    let long = "x".repeat(61);
    assert_eq!(truncate(&long, 60), format!("{}...", "x".repeat(57)));
    let accents = "\u{e9}".repeat(60);
    assert_eq!(truncate(&accents, 60), accents);
    assert_eq!(truncate("abcd", 2), "ab");
}

#[test]
fn the_default_format_is_a_table() {
    assert_eq!(OutputFormat::default(), OutputFormat::Table);
}
