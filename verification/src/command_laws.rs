//! What the commands do to a store and what they print, field by field.

use crate::change_laws;
use crate::clock;
use crate::clock::Instant;
use crate::display::Hue;
use crate::json;
use crate::list_laws;
use crate::pattern;
use crate::query_laws;
use crate::task;
use crate::task::{MetaValue, MetaView, Task, TaskStatus, TaskView};
use crate::task_cli;
use crate::task_cli::{
    execute, parse_meta, read_current_loop_id, report_add, report_change, report_ensure,
    report_list, report_ready, report_show, AddArgs, CommandResult, EnsureArgs, ListArgs,
    OutputFormat, OutputView, ReadyArgs, ShowArgs, TaskArgs, TaskCommands,
};
use crate::task_list;
use crate::task_source;
use crate::task_source::{TaskSource, TaskSourceError, TaskSourceResult};
use crate::text;
use crate::text_laws;
use vstd::prelude::*;
use vstd::string::*;

verus! {

/// The loop that a marker names is what it holds without the white space around it; a marker
/// of white space alone names none, and neither does one that is not there.
pub proof fn markers_name_loops(marker: Option<String>, r: Option<String>)
    requires
        call_ensures(read_current_loop_id, (&marker,), r),
    ensures
        match marker {
            None => r is None,
            Some(m) => match r {
                Some(l) => l@.len() > 0 && exists|a: Seq<char>, b: Seq<char>| #[trigger]
                    text_laws::core_of(l@, m@, a, b),
                None => text_laws::blank(m@),
            },
        },
{
    lemma_marker(marker);
}

proof fn lemma_marker(marker: Option<String>)
    ensures
        marker is None ==> task_cli::current_loop(json::opt_text(marker)) is None,
        marker matches Some(m) ==> match task_cli::current_loop(json::opt_text(marker)) {
            Some(l) => l.len() > 0 && exists|a: Seq<char>, b: Seq<char>| #[trigger]
                text_laws::core_of(l, m@, a, b),
            None => text_laws::blank(m@),
        },
{
    if let Some(m) = marker {
        text_laws::lemma_core(m@);
        assert(json::opt_text(marker) == Some(m@));
        let l = text::trimmed(m@);
        let (a, b) = choose|a: Seq<char>, b: Seq<char>| #[trigger] text_laws::core_of(l, m@, a, b);
        if l.len() > 0 {
            assert(task_cli::current_loop(Some(m@)) == Some(l));
            assert(text_laws::core_of(l, m@, a, b));
        } else {
            assert(task_cli::current_loop(Some(m@)) is None);
        }
    }
}

/// The identifiers in a list are those of its parts, one after another, wherever a comma parts
/// it; a part without commas gives what it holds without the white space around it, and
/// nothing where that is empty.
pub proof fn lists_are_parted_by_commas(
    a: Seq<char>,
    b: Seq<char>,
    t: Seq<char>,
    x: Seq<char>,
    y: Seq<char>,
)
    ensures
        task_cli::blocker_ids(a + seq![','] + b) == task_cli::blocker_ids(a)
            + task_cli::blocker_ids(b),
        text_laws::core_of(t, a, x, y) && !a.contains(',') ==> task_cli::blocker_ids(a) == if t.len()
            > 0 {
            seq![t]
        } else {
            Seq::<Seq<char>>::empty()
        },
{
    lemma_list_parts(a, b);
    if text_laws::core_of(t, a, x, y) && !a.contains(',') {
        text_laws::trimming_is_unique(t, a, x, y);
    }
}

proof fn lemma_list_parts(a: Seq<char>, b: Seq<char>)
    ensures
        task_cli::blocker_ids(a + seq![','] + b) == task_cli::blocker_ids(a)
            + task_cli::blocker_ids(b),
    decreases a.len(),
{
    let s = a + seq![','] + b;
    text::lemma_split_at_first(a, ',');
    text::lemma_split_at_first(s, ',');
    assert(s[a.len() as int] == ',');
    assert(s.contains(','));
    let (p, q) = text::split_at_first(s, ',')->0;
    match text::split_at_first(a, ',') {
        Some((before, after)) => {
            lemma_first_comma(p, q, before, after + seq![','] + b);
            assert(before + seq![','] + (after + seq![','] + b) =~= s);
            assert(p == before && q == after + seq![','] + b);
            lemma_list_parts(after, b);
            assert(task_cli::blocker_ids(s) =~= task_cli::blocker_ids(a) + task_cli::blocker_ids(b));
        },
        None => {
            lemma_first_comma(p, q, a, b);
            assert(p == a && q == b);
        },
    }
}

/// A text is parted at its first comma in one way.
proof fn lemma_first_comma(p: Seq<char>, q: Seq<char>, x: Seq<char>, y: Seq<char>)
    requires
        !p.contains(','),
        !x.contains(','),
    ensures
        p + seq![','] + q == x + seq![','] + y ==> p == x && q == y,
{
    let s = p + seq![','] + q;
    let t = x + seq![','] + y;
    if s == t {
        assert(s[p.len() as int] == ',');
        assert(t[x.len() as int] == ',');
        if p.len() < x.len() {
            assert(t[p.len() as int] == x[p.len() as int]);
            assert(x.contains(','));
        }
        if x.len() < p.len() {
            assert(s[x.len() as int] == p[x.len() as int]);
            assert(p.contains(','));
        }
        assert(p =~= s.take(p.len() as int));
        assert(x =~= t.take(x.len() as int));
        assert(q =~= s.skip(p.len() as int + 1));
        assert(y =~= t.skip(x.len() as int + 1));
    }
}

/// Whether an argument is a key, an equals sign and a value, with no such sign in the key.
pub open spec fn gives(arg: Seq<char>, key: Seq<char>, value: Seq<char>) -> bool {
    arg == key + seq!['='] + value && !key.contains('=')
}

proof fn lemma_gives(arg: Seq<char>, key: Seq<char>, value: Seq<char>)
    ensures
        gives(arg, key, value) <==> text::split_at_first(arg, '=') == Some((key, value)),
{
    text::lemma_split_at_first(arg, '=');
    if gives(arg, key, value) {
        assert(arg[key.len() as int] == '=');
        assert(arg.contains('='));
        arg.index_of_first_ensures('=');
        let i = arg.index_of_first('=')->0;
        if i < key.len() {
            assert(key[i] == '=');
        }
        assert(i == key.len());
        assert(arg.take(i) =~= key);
        assert(arg.skip(i + 1) =~= value);
    }
}

proof fn lemma_entry_place(m: Seq<(Seq<char>, MetaView)>, key: Seq<char>)
    ensures
        match task::entry_of(m, key) {
            Some(v) => exists|e: int| 0 <= e < m.len() && #[trigger] m[e] == (key, v),
            None => forall|e: int| 0 <= e < m.len() ==> (#[trigger] m[e]).0 != key,
        },
    decreases m.len(),
{
    if m.len() > 0 {
        if m[0].0 == key {
            assert(m[0] == (key, m[0].1));
        } else {
            let rest = m.skip(1);
            lemma_entry_place(rest, key);
            match task::entry_of(rest, key) {
                Some(v) => {
                    let e = choose|e: int| 0 <= e < rest.len() && #[trigger] rest[e] == (key, v);
                    assert(m[e + 1] == (key, v));
                },
                None => {
                    assert forall|e: int| 0 <= e < m.len() implies (#[trigger] m[e]).0 != key by {
                        if e > 0 {
                            assert(rest[e - 1] == m[e]);
                        }
                    }
                },
            }
        }
    }
}

proof fn lemma_last_meta(args: Seq<Seq<char>>, key: Seq<char>)
    ensures
        forall|i: int, v: Seq<char>|
            0 <= i < args.len() && #[trigger] gives(args[i], key, v) && (forall|j: int, w: Seq<char>|
                i < j < args.len() ==> !#[trigger] gives(args[j], key, w)) ==> task_cli::last_meta(
                args,
                key,
            ) == Some(MetaView::Text(v)),
        task_cli::last_meta(args, key) matches Some(m) ==> exists|i: int, v: Seq<char>|
            0 <= i < args.len() && #[trigger] gives(args[i], key, v) && m == MetaView::Text(v),
    decreases args.len(),
{
    if args.len() > 0 {
        let front = args.drop_last();
        let n = args.len() - 1;
        lemma_last_meta(front, key);
        text::lemma_split_at_first(args.last(), '=');
        assert forall|i: int, v: Seq<char>|
            0 <= i < args.len() && #[trigger] gives(args[i], key, v) && (forall|j: int, w: Seq<char>|
                i < j < args.len() ==> !#[trigger] gives(args[j], key, w)) implies task_cli::last_meta(
            args,
            key,
        ) == Some(MetaView::Text(v)) by {
            lemma_gives(args[i], key, v);
            if i < n {
                if let Some((k, w)) = text::split_at_first(args.last(), '=') {
                    lemma_gives(args[n], k, w);
                    assert(k == key ==> gives(args[n], key, w));
                }
                assert(front[i] == args[i]);
                assert(gives(front[i], key, v));
                assert forall|j: int, w: Seq<char>| i < j < front.len() implies !#[trigger] gives(
                    front[j],
                    key,
                    w,
                ) by {
                    assert(front[j] == args[j]);
                }
            }
        }
        if let Some(m) = task_cli::last_meta(args, key) {
            if let Some((k, w)) = text::split_at_first(args.last(), '=') {
                if k == key {
                    lemma_gives(args[n], key, w);
                    assert(gives(args[n], key, w));
                } else {
                    let (i, v) = choose|i: int, v: Seq<char>|
                        0 <= i < front.len() && #[trigger] gives(front[i], key, v) && m
                            == MetaView::Text(v);
                    assert(gives(args[i], key, v));
                }
            } else {
                let (i, v) = choose|i: int, v: Seq<char>|
                    0 <= i < front.len() && #[trigger] gives(front[i], key, v) && m
                        == MetaView::Text(v);
                assert(gives(args[i], key, v));
            }
        }
    }
}

/// Metadata arguments give each of their keys the value of the last argument for it, as a
/// string: all that follows the first equals sign. No other key gets a value, and no key gets
/// two.
pub proof fn meta_arguments_give_values(
    args: Vec<String>,
    r: Vec<(String, MetaValue)>,
    i: int,
    key: Seq<char>,
    value: Seq<char>,
)
    requires
        call_ensures(parse_meta, (&args,), r),
    ensures
        ({
            let m = task::entries(r@);
            &&& 0 <= i < args@.len() && gives(args@[i]@, key, value) && (forall|
                j: int,
                w: Seq<char>,
            |
                i < j < args@.len() ==> !#[trigger] gives(args@[j]@, key, w)) ==> exists|e: int|
                0 <= e < m.len() && #[trigger] m[e] == (key, MetaView::Text(value))
            &&& forall|e: int|
                0 <= e < m.len() && (#[trigger] m[e]).0 == key ==> exists|k: int, v: Seq<char>|
                    0 <= k < args@.len() && #[trigger] gives(args@[k]@, key, v) && m[e].1
                        == MetaView::Text(v)
            &&& forall|e: int, f: int|
                0 <= e < f < m.len() ==> (#[trigger] m[e]).0 != (#[trigger] m[f]).0
        }),
{
    let s = pattern::texts(args@);
    let m = task::entries(r@);
    task_cli::last_meta_counts(s, key);
    task_cli::meta_keys_are_distinct(s);
    lemma_last_meta(s, key);
    lemma_entry_place(m, key);
    if 0 <= i < args@.len() && gives(args@[i]@, key, value) && (forall|j: int, w: Seq<char>|
        i < j < args@.len() ==> !#[trigger] gives(args@[j]@, key, w)) {
        assert(s[i] == args@[i]@);
        assert(gives(s[i], key, value));
        assert forall|j: int, w: Seq<char>| i < j < s.len() implies !#[trigger] gives(
            s[j],
            key,
            w,
        ) by {
            assert(s[j] == args@[j]@);
        }
    }
    assert forall|e: int| 0 <= e < m.len() && (#[trigger] m[e]).0 == key implies exists|
        k: int,
        v: Seq<char>,
    | 0 <= k < args@.len() && #[trigger] gives(args@[k]@, key, v) && m[e].1 == MetaView::Text(v) by {
        let found = task::entry_of(m, key)->0;
        let f = choose|f: int| 0 <= f < m.len() && #[trigger] m[f] == (key, found);
        assert(e == f);
        let (k, v) = choose|k: int, v: Seq<char>|
            0 <= k < s.len() && #[trigger] gives(s[k], key, v) && found == MetaView::Text(v);
        assert(gives(args@[k]@, key, v));
    }
}

/// After `task add` the store holds, behind all its other tasks, one with the title, the
/// priority and the description of the arguments: the description that was given, and none
/// where none was. It is open and was made at the time of the command; it belongs to the
/// current loop, waits for the tasks that the arguments name, has the metadata of the
/// arguments, and has no key, start or end. The command prints that task.
pub proof fn add_stores_the_arguments<S: TaskSource>(
    args: TaskArgs,
    a: AddArgs,
    source: &mut S,
    marker: Option<String>,
    now: Instant,
    use_colors: bool,
    current: Option<String>,
    meta: Vec<(String, MetaValue)>,
    r: CommandResult,
)
    requires
        args.command == TaskCommands::Add(a),
        call_ensures(execute::<S>, (args, source, &marker, now, use_colors), r),
        call_ensures(read_current_loop_id, (&marker,), current),
        call_ensures(parse_meta, (&a.meta,), meta),
    ensures
        r is Err ==> fails_with(r, "Failed to add task: "@),
        r is Ok ==> {
            let held = final(source).tasks();
            let t = held.last();
            &&& held.len() > 0
            &&& t.title == a.title@
            &&& t.priority == a.priority
            &&& a.description matches Some(d) ==> t.description == Some(d@)
            &&& a.description is None ==> t.description is None
            &&& t.status == TaskStatus::Open
            &&& t.created == clock::rfc3339_text(now.seconds, now.nanos)
            &&& t.key is None
            &&& t.started is None
            &&& t.closed is None
            &&& current matches Some(l) ==> t.loop_id == Some(l@)
            &&& current is None ==> t.loop_id is None
            &&& a.blocked_by matches Some(list) ==> t.blocked_by == task_cli::blocker_ids(list@)
            &&& a.blocked_by is None ==> t.blocked_by.len() == 0
            &&& t.metadata == task::entries(meta@)
            &&& a.format == OutputFormat::Json ==> r->Ok_0@ == OutputView::Json(t)
            &&& a.format == OutputFormat::Quiet ==> r->Ok_0@ == OutputView::Lines(seq![t.id])
            &&& a.format == OutputFormat::Table ==> r->Ok_0@ == OutputView::Lines(
                crate::display::created_text(t, use_colors),
            )
        },
{
    let x = task_cli::task_to_add(a, json::opt_text(marker), now);
    let reply = choose|reply: TaskSourceResult<Task>| #[trigger]
        task_cli::add_replied(old(source), x, final(source), reply) && task_cli::outcome(r)
            == task_cli::add_report(task_cli::task_reply(reply), a.format, use_colors);
    if let Ok(t) = reply {
        change_laws::stores_hold_what_they_added(x, final(source).tasks(), t@);
    } else {
        lemma_failure("Failed to add task: "@, reply->Err_0@, r);
    }
    assert(json::opt_text(current) == task_cli::current_loop(json::opt_text(marker)));
    if let Some(list) = a.blocked_by {
        assert(x.blocked_by =~= task_cli::blocker_ids(list@));
    }
}

/// Whether a key is known is whether a task that was listed has it; where listing failed it is
/// not.
pub proof fn keys_are_known_from_the_listing(
    listed: TaskSourceResult<Vec<Task>>,
    key: &str,
    r: bool,
)
    requires
        call_ensures(task_cli::key_is_known, (listed, key), r),
    ensures
        listed is Err ==> !r,
        listed matches Ok(v) ==> (r <==> exists|i: int|
            0 <= i < v@.len() && (#[trigger] v@[i])@.key == Some(key@)),
{
    if let Ok(v) = listed {
        lemma_key_known(v, key@);
    }
}

proof fn lemma_key_known(v: Vec<Task>, key: Seq<char>)
    ensures
        task_cli::key_known(Ok(task::views(v@)), key) <==> exists|i: int|
            0 <= i < v@.len() && (#[trigger] v@[i])@.key == Some(key),
{
    let s = task::views(v@);
    query_laws::finding_gives_the_first(s, key);
    if exists|i: int| 0 <= i < v@.len() && (#[trigger] v@[i])@.key == Some(key) {
        let i = choose|i: int| 0 <= i < v@.len() && (#[trigger] v@[i])@.key == Some(key);
        assert(s[i].key == Some(key));
    }
    if let Some(t) = task_list::by_key(s, key) {
        let i = choose|i: int|
            0 <= i < s.len() && #[trigger] s[i] == t && t.key == Some(key) && forall|j: int|
                0 <= j < i ==> (#[trigger] s[j]).key != Some(key);
        assert(v@[i]@.key == Some(key));
    }
}

/// Whether a task of the loop has the key.
pub open spec fn has_key_in(s: Seq<TaskView>, f: Option<Seq<char>>, key: Seq<char>) -> bool {
    exists|i: int|
        0 <= i < s.len() && (#[trigger] s[i]).key == Some(key) && (f is None || s[i].loop_id == f)
}

/// After `task ensure` the store holds a task with the key, the title and the priority of the
/// arguments, with their description where they give one, and with the blockers that they name
/// where they name any. The command prints that task; it says that the task was reused only
/// where a task that the store listed before had the key, and where the store always lists its
/// tasks it says so whenever one had.
pub proof fn ensure_stores_the_arguments<S: TaskSource>(
    args: TaskArgs,
    a: EnsureArgs,
    source: &mut S,
    marker: Option<String>,
    now: Instant,
    use_colors: bool,
    r: CommandResult,
)
    requires
        args.command == TaskCommands::Ensure(a),
        call_ensures(execute::<S>, (args, source, &marker, now, use_colors), r),
    ensures
        r is Err ==> fails_with(r, "Failed to ensure task: "@),
        r is Ok ==> exists|t: TaskView, reused: bool| #[trigger]
            ensured_as(t, reused, a, final(source).tasks()) && (a.format == OutputFormat::Json
                ==> r->Ok_0@ == OutputView::Json(t)) && (a.format == OutputFormat::Quiet
                ==> r->Ok_0@ == OutputView::Lines(seq![t.id])) && (a.format == OutputFormat::Table
                ==> r->Ok_0@ == OutputView::Lines(
                crate::display::ensured_text(t, a.key@, reused, use_colors),
            )) && (reused ==> has_key_in(
                old(source).tasks(),
                old(source).loop_filter(),
                a.key@,
            )) && ((forall|x: TaskSourceResult<Vec<Task>>| #[trigger]
                call_ensures(S::all, (&*old(source),), x) ==> x is Ok) && has_key_in(
                old(source).tasks(),
                old(source).loop_filter(),
                a.key@,
            ) ==> reused),
{
    let x = task_cli::task_to_ensure(a, json::opt_text(marker), now);
    let (listed, reply) = choose|listed: TaskSourceResult<Vec<Task>>, reply: TaskSourceResult<Task>|
        #[trigger]
        task_cli::all_replied(old(source), listed) && #[trigger] task_cli::ensure_replied(
            old(source),
            x,
            final(source),
            reply,
        ) && task_cli::outcome(r) == task_cli::ensure_report(
            task_cli::task_reply(reply),
            a.key@,
            task_cli::key_known(task_cli::list_reply(listed), a.key@),
            a.format,
            use_colors,
        );
    if let Ok(done) = reply {
        let t = done@;
        let reused = task_cli::key_known(task_cli::list_reply(listed), a.key@);
        change_laws::stores_hold_what_they_ensured(x, a.key@, final(source).tasks(), t);
        if let Some(list) = a.blocked_by {
            assert(x.blocked_by =~= task_cli::blocker_ids(list@));
        }
        if let Ok(v) = listed {
            lemma_reused(v, old(source).tasks(), old(source).loop_filter(), a.key@);
        }
        assert(ensured_as(t, reused, a, final(source).tasks()));
    } else {
        lemma_failure("Failed to ensure task: "@, reply->Err_0@, r);
    }
}

proof fn lemma_reused(v: Vec<Task>, s: Seq<TaskView>, f: Option<Seq<char>>, key: Seq<char>)
    requires
        task::views(v@) == task_list::scoped(s, f),
    ensures
        task_cli::key_known(Ok(task::views(v@)), key) <==> has_key_in(s, f, key),
{
    broadcast use vstd::seq_lib::group_filter_ensures;

    lemma_key_known(v, key);
    query_laws::all_is_the_loop(s, f);
    let p = |t: TaskView| f is None || t.loop_id == f;
    let mine = s.filter(p);
    if exists|i: int| 0 <= i < v@.len() && (#[trigger] v@[i])@.key == Some(key) {
        let i = choose|i: int| 0 <= i < v@.len() && (#[trigger] v@[i])@.key == Some(key);
        assert(mine[i] == v@[i]@);
        assert(p(mine[i]));
        task_list::lemma_filter_from(s, p, i);
        let k = choose|k: int| 0 <= k < s.len() && s[k] == mine[i];
        assert(s[k].key == Some(key));
    }
    if has_key_in(s, f, key) {
        let i = choose|i: int|
            0 <= i < s.len() && (#[trigger] s[i]).key == Some(key) && (f is None || s[i].loop_id
                == f);
        assert(p(s[i]));
        assert(mine.contains(s[i]));
        let k = choose|k: int| 0 <= k < mine.len() && mine[k] == s[i];
        assert(v@[k]@ == mine[k]);
    }
}

proof fn lemma_failure(what: Seq<char>, e: task_source::ErrorView, r: CommandResult)
    requires
        r is Err,
        r->Err_0@ == task_cli::failure(what, e),
    ensures
        fails_with(r, what),
{
    assert(r->Err_0@.take(what.len() as int) =~= what);
}

/// Whether a store holds a task as the arguments of `task ensure` say it.
pub open spec fn ensured_as(
    t: TaskView,
    reused: bool,
    a: EnsureArgs,
    held: Seq<TaskView>,
) -> bool {
    &&& held.contains(t)
    &&& t.key == Some(a.key@)
    &&& t.title == a.title@
    &&& t.priority == a.priority
    &&& a.description matches Some(d) ==> t.description == Some(d@)
    &&& a.blocked_by matches Some(list) ==> task_cli::blocker_ids(list@).len() > 0 ==> t.blocked_by
        == task_cli::blocker_ids(list@)
}

/// Whether a command printed one line, in a colour where colours are wanted.
pub open spec fn prints(
    r: CommandResult,
    code: Seq<char>,
    line: Seq<char>,
    use_colors: bool,
) -> bool {
    r is Ok && r->Ok_0@ == OutputView::Lines(
        seq![crate::display_laws::tinted(code, line, use_colors)],
    )
}

/// Whether a command failed with the message that there is no such task.
pub open spec fn names_missing(r: CommandResult, id: Seq<char>) -> bool {
    r is Err && r->Err_0@ == "Task "@ + id + " not found"@
}

/// Whether a command failed with a message that begins like this.
pub open spec fn fails_with(r: CommandResult, what: Seq<char>) -> bool {
    r is Err && what.is_prefix_of(r->Err_0@)
}

proof fn lemma_change_report(
    what: Seq<char>,
    h: Hue,
    label: Seq<char>,
    id: Seq<char>,
    reply: TaskSourceResult<Option<Task>>,
    use_colors: bool,
    r: CommandResult,
)
    requires
        task_cli::outcome(r) == task_cli::change_report(
            what,
            h,
            label,
            id,
            task_cli::opt_reply(reply),
            use_colors,
        ),
    ensures
        match reply {
            Ok(Some(t)) => prints(
                r,
                crate::display::escape(h),
                label + id + " - "@ + t@.title,
                use_colors,
            ),
            Ok(None) => names_missing(r, id),
            Err(_) => fails_with(r, what),
        },
{
    if let Err(e) = reply {
        assert(r->Err_0@.take(what.len() as int) =~= what);
    }
}

/// After `task start`, `task close`, `task fail` or `task reopen` the store holds the first
/// task with the identifier in the new state, with the time of its start or its end, and the
/// command prints what it did, the identifier and the title. Where there is no such task the
/// command says so.
pub proof fn state_commands_change_the_state<S: TaskSource>(
    args: TaskArgs,
    source: &mut S,
    marker: Option<String>,
    now: Instant,
    use_colors: bool,
    id: Seq<char>,
    r: CommandResult,
)
    requires
        call_ensures(execute::<S>, (args, source, &marker, now, use_colors), r),
    ensures
        (args.command matches TaskCommands::Start(a) && a.id@ == id) ==> (exists|i: int| #[trigger]
            query_laws::first_with_id(final(source).tasks(), id, i) && final(source).tasks()[i].status
                == TaskStatus::InProgress && final(source).tasks()[i].started is Some && prints(
                r,
                "\u{1b}[34m"@,
                "Started task: "@ + id + " - "@ + final(source).tasks()[i].title,
                use_colors,
            )) || (names_missing(r, id) && missing_in(final(source).tasks(), id)) || fails_with(
            r,
            "Failed to start task: "@,
        ),
        (args.command matches TaskCommands::Close(a) && a.id@ == id) ==> (exists|i: int| #[trigger]
            query_laws::first_with_id(final(source).tasks(), id, i) && final(source).tasks()[i].status
                == TaskStatus::Closed && final(source).tasks()[i].closed is Some && prints(
                r,
                "\u{1b}[32m"@,
                "Closed task: "@ + id + " - "@ + final(source).tasks()[i].title,
                use_colors,
            )) || (names_missing(r, id) && missing_in(final(source).tasks(), id)) || fails_with(
            r,
            "Failed to close task: "@,
        ),
        (args.command matches TaskCommands::Fail(a) && a.id@ == id) ==> (exists|i: int| #[trigger]
            query_laws::first_with_id(final(source).tasks(), id, i) && final(source).tasks()[i].status
                == TaskStatus::Failed && final(source).tasks()[i].closed is Some && prints(
                r,
                "\u{1b}[31m"@,
                "Failed task: "@ + id + " - "@ + final(source).tasks()[i].title,
                use_colors,
            )) || (names_missing(r, id) && missing_in(final(source).tasks(), id)) || fails_with(
            r,
            "Failed to fail task: "@,
        ),
        (args.command matches TaskCommands::Reopen(a) && a.id@ == id) ==> (exists|i: int| #[trigger]
            query_laws::first_with_id(final(source).tasks(), id, i) && final(source).tasks()[i].status
                == TaskStatus::Open && final(source).tasks()[i].closed is None && prints(
                r,
                "\u{1b}[33m"@,
                "Reopened task: "@ + id + " - "@ + final(source).tasks()[i].title,
                use_colors,
            )) || (names_missing(r, id) && missing_in(final(source).tasks(), id)) || fails_with(
            r,
            "Failed to reopen task: "@,
        ),
{
    let held = final(source).tasks();
    match args.command {
        TaskCommands::Start(a) => {
            let reply = choose|reply: TaskSourceResult<Option<Task>>| #[trigger]
                task_cli::start_replied(old(source), a.id@, final(source), reply)
                    && task_cli::outcome(r) == task_cli::change_report(
                    "Failed to start task: "@,
                    Hue::Blue,
                    "Started task: "@,
                    a.id@,
                    task_cli::opt_reply(reply),
                    use_colors,
                );
            lemma_change_report(
                "Failed to start task: "@,
                Hue::Blue,
                "Started task: "@,
                a.id@,
                reply,
                use_colors,
                r,
            );
            if let Ok(t) = reply {
                change_laws::stores_hold_what_they_changed(a.id@, held, task::opt_view(t));
            }
        },
        TaskCommands::Close(a) => {
            let reply = choose|reply: TaskSourceResult<Option<Task>>| #[trigger]
                task_cli::close_replied(old(source), a.id@, final(source), reply)
                    && task_cli::outcome(r) == task_cli::change_report(
                    "Failed to close task: "@,
                    Hue::Green,
                    "Closed task: "@,
                    a.id@,
                    task_cli::opt_reply(reply),
                    use_colors,
                );
            lemma_change_report(
                "Failed to close task: "@,
                Hue::Green,
                "Closed task: "@,
                a.id@,
                reply,
                use_colors,
                r,
            );
            if let Ok(t) = reply {
                change_laws::stores_hold_what_they_changed(a.id@, held, task::opt_view(t));
            }
        },
        TaskCommands::Fail(a) => {
            let reply = choose|reply: TaskSourceResult<Option<Task>>| #[trigger]
                task_cli::fail_replied(old(source), a.id@, final(source), reply)
                    && task_cli::outcome(r) == task_cli::change_report(
                    "Failed to fail task: "@,
                    Hue::Red,
                    "Failed task: "@,
                    a.id@,
                    task_cli::opt_reply(reply),
                    use_colors,
                );
            lemma_change_report(
                "Failed to fail task: "@,
                Hue::Red,
                "Failed task: "@,
                a.id@,
                reply,
                use_colors,
                r,
            );
            if let Ok(t) = reply {
                change_laws::stores_hold_what_they_changed(a.id@, held, task::opt_view(t));
            }
        },
        TaskCommands::Reopen(a) => {
            let reply = choose|reply: TaskSourceResult<Option<Task>>| #[trigger]
                task_cli::reopen_replied(old(source), a.id@, final(source), reply)
                    && task_cli::outcome(r) == task_cli::change_report(
                    "Failed to reopen task: "@,
                    Hue::Yellow,
                    "Reopened task: "@,
                    a.id@,
                    task_cli::opt_reply(reply),
                    use_colors,
                );
            lemma_change_report(
                "Failed to reopen task: "@,
                Hue::Yellow,
                "Reopened task: "@,
                a.id@,
                reply,
                use_colors,
                r,
            );
            if let Ok(t) = reply {
                change_laws::stores_hold_what_they_changed(a.id@, held, task::opt_view(t));
            }
        },
        _ => {},
    }
}

/// Whether no task has the identifier.
pub open spec fn missing_in(s: Seq<TaskView>, id: Seq<char>) -> bool {
    forall|i: int| 0 <= i < s.len() ==> (#[trigger] s[i]).id != id
}

/// `task ready` shows the open tasks whose blockers are all closed or failed, in the order of
/// the store: those of the current loop, or where all are asked for or there is no current
/// loop, those that the store is limited to already. It changes no task.
pub proof fn ready_shows_what_can_begin<S: TaskSource>(
    args: TaskArgs,
    a: ReadyArgs,
    source: &mut S,
    marker: Option<String>,
    now: Instant,
    use_colors: bool,
    current: Option<String>,
    r: CommandResult,
)
    requires
        args.command == TaskCommands::Ready(a),
        call_ensures(execute::<S>, (args, source, &marker, now, use_colors), r),
        call_ensures(read_current_loop_id, (&marker,), current),
    ensures
        r is Err ==> fails_with(r, "Failed to get ready tasks: "@),
        ({
            let f = if !a.all && current is Some {
                Some(current->0@)
            } else {
                old(source).loop_filter()
            };
            let mine = old(source).tasks().filter(|t: TaskView| f is None || t.loop_id == f);
            let chosen = mine.filter(
                |t: TaskView|
                    t.status == TaskStatus::Open && forall|i: int|
                        0 <= i < t.blocked_by.len() ==> query_laws::done_with(
                            mine,
                            #[trigger] t.blocked_by[i],
                        ),
            );
            &&& final(source).tasks() == old(source).tasks()
            &&& final(source).loop_filter() == f
            &&& r is Ok && a.format == OutputFormat::Json ==> r->Ok_0@ == OutputView::PrettyJsonList(
                chosen,
            )
            &&& r is Ok && a.format == OutputFormat::Quiet ==> r->Ok_0@ == OutputView::Lines(
                chosen.map_values(|t: TaskView| t.id),
            )
            &&& r is Ok && a.format == OutputFormat::Table ==> r->Ok_0@ == OutputView::Lines(
                crate::display::ready_text(chosen, use_colors),
            )
        }),
{
    assert(json::opt_text(current) == task_cli::current_loop(json::opt_text(marker)));
    let reply = choose|reply: TaskSourceResult<Vec<Task>>| #[trigger]
        task_cli::ready_replied(final(source), reply) && task_cli::outcome(r)
            == task_cli::ready_report(task_cli::list_reply(reply), a.format, use_colors);
    query_laws::ready_is_all_that_can_begin(final(source).tasks(), final(source).loop_filter());
    if let Ok(v) = reply {
        let chosen = task::views(v@);
        assert(crate::display::ids_text(chosen) =~= chosen.map_values(|t: TaskView| t.id));
    } else {
        lemma_failure("Failed to get ready tasks: "@, reply->Err_0@, r);
    }
}

/// `task list` shows the tasks of the store that were asked for, in order and up to the limit.
/// It changes nothing.
pub proof fn list_shows_what_was_asked_for<S: TaskSource>(
    args: TaskArgs,
    a: ListArgs,
    source: &mut S,
    marker: Option<String>,
    now: Instant,
    use_colors: bool,
    r: CommandResult,
)
    requires
        args.command == TaskCommands::List(a),
        call_ensures(execute::<S>, (args, source, &marker, now, use_colors), r),
        a.days matches Some(d) ==> clock::MIN_SECONDS <= now.seconds - d * 86400
            <= clock::MAX_SECONDS,
    ensures
        r is Err ==> fails_with(r, "Failed to list tasks: "@),
        ({
            let f = old(source).loop_filter();
            let mine = old(source).tasks().filter(|t: TaskView| f is None || t.loop_id == f);
            &&& *final(source) == *old(source)
            &&& r is Ok ==> exists|shown: Seq<TaskView>| #[trigger]
                list_laws::shown_of(shown, mine, a, now) && match a.format {
                    OutputFormat::Json => r->Ok_0@ == OutputView::PrettyJsonList(shown),
                    OutputFormat::Quiet => r->Ok_0@ == OutputView::Lines(
                        shown.map_values(|t: TaskView| t.id),
                    ),
                    OutputFormat::Table => r->Ok_0@ == OutputView::Lines(
                        crate::display::list_text(shown, use_colors),
                    ),
                }
        }),
{
    let f = old(source).loop_filter();
    let mine = old(source).tasks().filter(|t: TaskView| f is None || t.loop_id == f);
    query_laws::all_is_the_loop(old(source).tasks(), f);
    let reply = choose|reply: TaskSourceResult<Vec<Task>>| #[trigger]
        task_cli::all_replied(old(source), reply) && task_cli::list_report(
            task_cli::list_reply(reply),
            a,
            now,
            use_colors,
            task_cli::outcome(r),
        );
    if let Ok(v) = reply {
        let all = task::views(v@);
        assert(all == mine);
        let shown = choose|shown: Seq<TaskView>| #[trigger]
            task_cli::listing(shown, all, a, now) && task_cli::outcome(r)->Ok_0
                == task_cli::listed_output(
                shown,
                crate::display::list_text(shown, use_colors),
                a.format,
            );
        list_laws::lemma_shown(shown, mine, a, now);
        assert(crate::display::ids_text(shown) =~= shown.map_values(|t: TaskView| t.id));
    } else {
        lemma_failure("Failed to list tasks: "@, reply->Err_0@, r);
    }
}

/// `task show` shows the first task of the store with the identifier, and says so where there
/// is none. It changes nothing.
pub proof fn show_shows_the_first_with_the_id<S: TaskSource>(
    args: TaskArgs,
    a: ShowArgs,
    source: &mut S,
    marker: Option<String>,
    now: Instant,
    use_colors: bool,
    r: CommandResult,
)
    requires
        args.command == TaskCommands::Show(a),
        call_ensures(execute::<S>, (args, source, &marker, now, use_colors), r),
    ensures
        *final(source) == *old(source),
        r is Ok ==> exists|i: int| #[trigger]
            query_laws::first_with_id(old(source).tasks(), a.id@, i) && match a.format {
                OutputFormat::Json => r->Ok_0@ == OutputView::PrettyJson(old(source).tasks()[i]),
                OutputFormat::Quiet => r->Ok_0@ == OutputView::Lines(seq![a.id@]),
                OutputFormat::Table => r->Ok_0@ == OutputView::Lines(
                    crate::display::show_text(old(source).tasks()[i], use_colors),
                ),
            },
        r is Err ==> (names_missing(r, a.id@) && missing_in(old(source).tasks(), a.id@))
            || fails_with(r, "Failed to get task: "@),
{
    let reply = choose|reply: TaskSourceResult<Option<Task>>| #[trigger]
        task_cli::get_replied(old(source), a.id@, reply) && task_cli::outcome(r)
            == task_cli::show_report(a.id@, task_cli::opt_reply(reply), a.format, use_colors);
    query_laws::finding_gives_the_first(old(source).tasks(), a.id@);
    match reply {
        Ok(Some(t)) => {
            let i = choose|i: int| #[trigger]
                query_laws::first_with_id(old(source).tasks(), a.id@, i)
                    && old(source).tasks()[i] == t@;
            assert(query_laws::first_with_id(old(source).tasks(), a.id@, i));
        },
        Ok(None) => {},
        Err(e) => {
            let what = "Failed to get task: "@;
            assert(r->Err_0@.take(what.len() as int) =~= what);
        },
    }
}

/// A command that fails because its store failed says what it could not do, and then what the
/// store said.
pub proof fn failed_commands_pass_the_message_on(
    e: TaskSourceError,
    m: String,
    format: OutputFormat,
    use_colors: bool,
    key: &str,
    existed: bool,
    args: ListArgs,
    now: Instant,
    what: &str,
    h: Hue,
    label: &str,
    r: CommandResult,
)
    requires
        call_ensures(TaskSourceError::to_string, (&e,), m),
    ensures
        call_ensures(report_add, (Err(e), format, use_colors), r) ==> r is Err && r->Err_0@
            == "Failed to add task: "@ + m@,
        call_ensures(report_ensure, (Err(e), key, existed, format, use_colors), r) ==> r is Err
            && r->Err_0@ == "Failed to ensure task: "@ + m@,
        call_ensures(report_list, (Err(e), &args, now, use_colors), r) ==> r is Err && r->Err_0@
            == "Failed to list tasks: "@ + m@,
        call_ensures(report_ready, (Err(e), format, use_colors), r) ==> r is Err && r->Err_0@
            == "Failed to get ready tasks: "@ + m@,
        call_ensures(report_change, (what, h, label, key, Err(e), use_colors), r) ==> r is Err
            && r->Err_0@ == what@ + m@,
        call_ensures(report_show, (key, Err(e), format, use_colors), r) ==> r is Err && r->Err_0@
            == "Failed to get task: "@ + m@,
{
}

/// Commands print tables where nothing else is asked for.
pub proof fn tables_are_usual(f: OutputFormat)
    requires
        call_ensures(OutputFormat::default, (), f),
    ensures
        f == OutputFormat::Table,
{
}

} // verus!
