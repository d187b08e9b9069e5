//! The order of tasks in a listing.

use crate::task;
use crate::task::{Task, TaskStatus, TaskView};
use crate::task_list;
use crate::text::chars_of;
use vstd::prelude::*;
use vstd::string::*;

verus! {

/// Whether `a` comes before `b` or is `b`, character by character.
pub open spec fn text_le(a: Seq<char>, b: Seq<char>) -> bool
    decreases a.len(),
{
    if a.len() == 0 {
        true
    } else if b.len() == 0 {
        false
    } else if a[0] != b[0] {
        a[0] < b[0]
    } else {
        text_le(a.skip(1), b.skip(1))
    }
}

proof fn lemma_text_total(a: Seq<char>, b: Seq<char>)
    ensures
        text_le(a, b) || text_le(b, a),
        text_le(a, b) && text_le(b, a) ==> a == b,
    decreases a.len(),
{
    if a.len() == 0 || b.len() == 0 {
        if a.len() == 0 && b.len() == 0 {
            assert(a =~= b);
        }
    } else {
        lemma_text_total(a.skip(1), b.skip(1));
        if a[0] == b[0] && a.skip(1) == b.skip(1) {
            assert(a =~= seq![a[0]] + a.skip(1));
            assert(b =~= seq![b[0]] + b.skip(1));
        }
    }
}

proof fn lemma_text_transitive(a: Seq<char>, b: Seq<char>, c: Seq<char>)
    requires
        text_le(a, b),
        text_le(b, c),
    ensures
        text_le(a, c),
    decreases a.len(),
{
    if a.len() > 0 && b.len() > 0 && c.len() > 0 && a[0] == b[0] && b[0] == c[0] {
        lemma_text_transitive(a.skip(1), b.skip(1), c.skip(1));
    }
}

/// Whether `a` comes before `b` or is `b`.
fn text_at_most(a: &str, b: &str) -> (r: bool)
    ensures
        r == text_le(a@, b@),
{
    let x = chars_of(a);
    let y = chars_of(b);
    let mut i: usize = 0;
    assert(a@.skip(0) =~= a@);
    assert(b@.skip(0) =~= b@);
    while i < x.len()
        invariant
            i <= x@.len(),
            i <= y@.len(),
            x@ == a@,
            y@ == b@,
            text_le(a@, b@) == text_le(a@.skip(i as int), b@.skip(i as int)),
        decreases x@.len() - i,
    {
        assert(a@.skip(i as int)[0] == a@[i as int]);
        if i >= y.len() {
            return false;
        }
        assert(b@.skip(i as int)[0] == b@[i as int]);
        if x[i] != y[i] {
            return x[i] < y[i];
        }
        assert(a@.skip(i as int).skip(1) =~= a@.skip(i + 1));
        assert(b@.skip(i as int).skip(1) =~= b@.skip(i + 1));
        i = i + 1;
    }
    true
}

/// The place of a state: work in progress first, then open, closed and failed tasks.
pub open spec fn status_rank(s: TaskStatus) -> int {
    match s {
        TaskStatus::InProgress => 0,
        TaskStatus::Open => 1,
        TaskStatus::Closed => 2,
        TaskStatus::Failed => 3,
    }
}

/// Whether `a` may stand before `b`: by state, then priority, then time of creation.
pub open spec fn may_precede(a: TaskView, b: TaskView) -> bool {
    if status_rank(a.status) != status_rank(b.status) {
        status_rank(a.status) < status_rank(b.status)
    } else if a.priority != b.priority {
        a.priority < b.priority
    } else {
        text_le(a.created, b.created)
    }
}

/// Accepts the tasks that are not told apart from `t` by the order.
pub open spec fn level_with(t: TaskView) -> spec_fn(TaskView) -> bool {
    |x: TaskView| x.status == t.status && x.priority == t.priority && x.created == t.created
}

/// Whether tasks are in order.
pub open spec fn in_order(s: Seq<TaskView>) -> bool {
    forall|i: int, j: int| 0 <= i < j < s.len() ==> may_precede(#[trigger] s[i], #[trigger] s[j])
}

/// Whether `s` is `from` put in order, with tasks that the order does not tell apart left in
/// the order in which they were.
pub open spec fn ordering_of(s: Seq<TaskView>, from: Seq<TaskView>) -> bool {
    in_order(s) && forall|t: TaskView|
        s.filter(#[trigger] level_with(t)) == from.filter(level_with(t))
}

proof fn lemma_precede(a: TaskView, b: TaskView)
    ensures
        may_precede(a, b) || may_precede(b, a),
        may_precede(a, b) && may_precede(b, a) ==> level_with(a)(b),
        level_with(a)(b) ==> may_precede(a, b) && may_precede(b, a),
{
    lemma_text_total(a.created, b.created);
}

proof fn lemma_precede_transitive(a: TaskView, b: TaskView, c: TaskView)
    requires
        may_precede(a, b),
        may_precede(b, c),
    ensures
        may_precede(a, c),
{
    if a.status == b.status && b.status == c.status && a.priority == b.priority && b.priority
        == c.priority {
        lemma_text_transitive(a.created, b.created, c.created);
    }
}

/// Whether `a` may stand before `b`.
fn can_precede(a: &Task, b: &Task) -> (r: bool)
    ensures
        r == may_precede(a@, b@),
{
    let ra = rank_of(a.status);
    let rb = rank_of(b.status);
    if ra != rb {
        ra < rb
    } else if a.priority != b.priority {
        a.priority < b.priority
    } else {
        text_at_most(a.created.as_str(), b.created.as_str())
    }
}

/// The place of a state.
fn rank_of(s: TaskStatus) -> (r: u8)
    ensures
        r == status_rank(s),
{
    match s {
        TaskStatus::InProgress => 0,
        TaskStatus::Open => 1,
        TaskStatus::Closed => 2,
        TaskStatus::Failed => 3,
    }
}

/// Inserting a task behind all that may stand before it keeps the order, and puts it last
/// among those that it is level with.
proof fn lemma_insert(s: Seq<TaskView>, from: Seq<TaskView>, x: TaskView, j: int)
    requires
        ordering_of(s, from),
        0 <= j <= s.len(),
        forall|i: int| 0 <= i < j ==> may_precede(#[trigger] s[i], x),
        forall|i: int| j <= i < s.len() ==> !may_precede(#[trigger] s[i], x),
    ensures
        ordering_of(s.insert(j, x), from.push(x)),
{
    let r = s.insert(j, x);
    let a = s.take(j);
    let b = s.skip(j);
    assert(s =~= a + b);
    assert(r =~= a + (seq![x] + b));
    assert forall|i: int, k: int| 0 <= i < k < r.len() implies may_precede(
        #[trigger] r[i],
        #[trigger] r[k],
    ) by {
        if i < j && k < j {
            assert(r[i] == s[i] && r[k] == s[k]);
        } else if i < j && k == j {
            assert(r[i] == s[i]);
        } else if i < j {
            assert(r[i] == s[i] && r[k] == s[k - 1]);
        } else if i == j {
            assert(r[k] == s[k - 1]);
            lemma_precede(x, s[k - 1]);
        } else {
            assert(r[i] == s[i - 1] && r[k] == s[k - 1]);
        }
    }
    assert forall|t: TaskView| r.filter(#[trigger] level_with(t)) == from.push(x).filter(
        level_with(t),
    ) by {
        let p = level_with(t);
        assert(s.filter(p) == from.filter(p));
        lemma_filter_parts(a, b, p);
        lemma_filter_parts(a, seq![x] + b, p);
        lemma_filter_parts(seq![x], b, p);
        assert(from.push(x) =~= from + seq![x]);
        lemma_filter_parts(from, seq![x], p);
        if p(x) {
            assert forall|i: int| 0 <= i < b.len() implies !p(#[trigger] b[i]) by {
                assert(b[i] == s[j + i]);
                lemma_precede(b[i], x);
                if p(b[i]) {
                    assert(level_with(b[i])(x));
                }
            }
            lemma_filter_none(b, p);
            assert(r.filter(p) =~= a.filter(p) + seq![x].filter(p));
            assert(s.filter(p) =~= a.filter(p));
        } else {
            assert(seq![x].filter(p) =~= seq![]) by {
                lemma_filter_none(seq![x], p);
            }
            assert(r.filter(p) =~= s.filter(p));
            assert(from.filter(p) + seq![] =~= from.filter(p));
        }
    }
}

proof fn lemma_filter_parts(a: Seq<TaskView>, b: Seq<TaskView>, p: spec_fn(TaskView) -> bool)
    ensures
        (a + b).filter(p) == a.filter(p) + b.filter(p),
{
    Seq::filter_distributes_over_add(a, b, p);
}

proof fn lemma_filter_none(s: Seq<TaskView>, p: spec_fn(TaskView) -> bool)
    requires
        forall|i: int| 0 <= i < s.len() ==> !p(#[trigger] s[i]),
    ensures
        s.filter(p) == Seq::<TaskView>::empty(),
    decreases s.len(),
{
    reveal(Seq::filter);
    if s.len() > 0 {
        lemma_filter_none(s.drop_last(), p);
    }
    assert(s.filter(p) =~= Seq::<TaskView>::empty());
}

/// The tasks in order: by state, then priority, then time of creation. Tasks that are level
/// in all three stay in the order in which they were.
pub fn sort_tasks(tasks: Vec<Task>) -> (r: Vec<Task>)
    ensures
        ordering_of(task::views(r@), task::views(tasks@)),
{
    let ghost s = task::views(tasks@);
    let mut out: Vec<Task> = Vec::new();
    let mut i: usize = 0;
    assert(task::views(out@) =~= s.take(0));
    while i < tasks.len()
        invariant
            i <= tasks@.len(),
            s == task::views(tasks@),
            ordering_of(task::views(out@), s.take(i as int)),
        decreases tasks@.len() - i,
    {
        let ghost o = task::views(out@);
        let x = tasks[i].clone();
        let mut j: usize = out.len();
        while j > 0 && !can_precede(&out[j - 1], &x)
            invariant
                j <= out@.len(),
                o == task::views(out@),
                in_order(o),
                forall|k: int| j <= k < o.len() ==> !may_precede(#[trigger] o[k], x@),
            decreases j,
        {
            assert(o[j - 1] == out@[j - 1]@);
            j = j - 1;
        }
        proof {
            assert forall|k: int| 0 <= k < j implies may_precede(#[trigger] o[k], x@) by {
                assert(o[j - 1] == out@[j - 1]@);
                if k < j - 1 {
                    lemma_precede_transitive(o[k], o[j - 1], x@);
                }
            }
            lemma_insert(o, s.take(i as int), x@, j as int);
        }
        out.insert(j, x);
        assert(task::views(out@) =~= o.insert(j as int, x@));
        assert(s.take(i + 1) =~= s.take(i as int).push(x@));
        i = i + 1;
    }
    assert(s.take(i as int) =~= s);
    out
}

proof fn lemma_filter_head(s: Seq<TaskView>, p: spec_fn(TaskView) -> bool)
    requires
        s.len() > 0,
        p(s[0]),
    ensures
        s.filter(p) == seq![s[0]] + s.skip(1).filter(p),
{
    assert(s =~= seq![s[0]] + s.skip(1));
    lemma_filter_parts(seq![s[0]], s.skip(1), p);
    reveal(Seq::filter);
    assert(seq![s[0]].drop_last() =~= Seq::<TaskView>::empty());
    assert(Seq::<TaskView>::empty().filter(p) =~= Seq::<TaskView>::empty());
    assert(seq![s[0]].filter(p) =~= seq![s[0]]);
}

proof fn lemma_filter_tail(s: Seq<TaskView>, p: spec_fn(TaskView) -> bool)
    requires
        s.len() > 0,
        !p(s[0]),
    ensures
        s.filter(p) == s.skip(1).filter(p),
{
    assert(s =~= seq![s[0]] + s.skip(1));
    lemma_filter_parts(seq![s[0]], s.skip(1), p);
    lemma_filter_none(seq![s[0]], p);
    assert(Seq::<TaskView>::empty() + s.skip(1).filter(p) =~= s.skip(1).filter(p));
}

/// In an ordering, the first task of another ordering of the same tasks has a place.
proof fn lemma_has_level(a: Seq<TaskView>, b: Seq<TaskView>)
    requires
        a.len() > 0,
        forall|t: TaskView| a.filter(#[trigger] level_with(t)) == b.filter(level_with(t)),
    ensures
        exists|i: int| 0 <= i < b.len() && level_with(a[0])(#[trigger] b[i]),
{
    let p = level_with(a[0]);
    lemma_filter_head(a, p);
    if forall|i: int| 0 <= i < b.len() ==> !p(#[trigger] b[i]) {
        lemma_filter_none(b, p);
        assert(a.filter(p).len() > 0);
    }
}

/// There is one way to put tasks in order: any two orderings of the same tasks are equal.
pub proof fn ordering_is_unique(a: Seq<TaskView>, b: Seq<TaskView>, from: Seq<TaskView>)
    requires
        ordering_of(a, from),
        ordering_of(b, from),
    ensures
        a == b,
    decreases a.len(),
{
    assert forall|t: TaskView| a.filter(#[trigger] level_with(t)) == b.filter(level_with(t)) by {
        assert(a.filter(level_with(t)) == from.filter(level_with(t)));
    }
    lemma_same_orderings(a, b);
}

proof fn lemma_same_orderings(a: Seq<TaskView>, b: Seq<TaskView>)
    requires
        in_order(a),
        in_order(b),
        forall|t: TaskView| a.filter(#[trigger] level_with(t)) == b.filter(level_with(t)),
    ensures
        a == b,
    decreases a.len(),
{
    if a.len() == 0 {
        if b.len() > 0 {
            assert forall|t: TaskView| b.filter(#[trigger] level_with(t)) == a.filter(
                level_with(t),
            ) by {}
            lemma_has_level(b, a);
        }
        assert(a =~= b);
    } else {
        lemma_has_level(a, b);
        let i = choose|i: int| 0 <= i < b.len() && level_with(a[0])(#[trigger] b[i]);
        assert forall|t: TaskView| b.filter(#[trigger] level_with(t)) == a.filter(level_with(t)) by {}
        lemma_has_level(b, a);
        let k = choose|k: int| 0 <= k < a.len() && level_with(b[0])(#[trigger] a[k]);
        let p = level_with(a[0]);
        lemma_precede(a[0], b[i]);
        lemma_precede(b[0], a[k]);
        lemma_precede(b[0], b[0]);
        lemma_precede(a[0], a[0]);
        assert(may_precede(b[0], b[i]));
        assert(may_precede(a[0], a[k]));
        lemma_precede_transitive(b[0], b[i], a[0]);
        lemma_precede_transitive(a[0], a[k], b[0]);
        lemma_precede(a[0], b[0]);
        assert(p(b[0]));
        assert(p(a[0]));
        lemma_filter_head(a, p);
        lemma_filter_head(b, p);
        assert(a.filter(p) == b.filter(p));
        assert(a.filter(p)[0] == a[0]);
        assert(b.filter(p)[0] == b[0]);
        let x = a.skip(1);
        let y = b.skip(1);
        assert forall|t: TaskView| x.filter(#[trigger] level_with(t)) == y.filter(level_with(t)) by {
            let q = level_with(t);
            assert(a.filter(q) == b.filter(q));
            if q(a[0]) {
                lemma_filter_head(a, q);
                lemma_filter_head(b, q);
                assert(a.filter(q).skip(1) =~= x.filter(q));
                assert(b.filter(q).skip(1) =~= y.filter(q));
            } else {
                lemma_filter_tail(a, q);
                lemma_filter_tail(b, q);
            }
        }
        assert forall|i: int, j: int| 0 <= i < j < x.len() implies may_precede(
            #[trigger] x[i],
            #[trigger] x[j],
        ) by {
            assert(x[i] == a[i + 1] && x[j] == a[j + 1]);
        }
        assert forall|i: int, j: int| 0 <= i < j < y.len() implies may_precede(
            #[trigger] y[i],
            #[trigger] y[j],
        ) by {
            assert(y[i] == b[i + 1] && y[j] == b[j + 1]);
        }
        lemma_same_orderings(x, y);
        assert(a =~= seq![a[0]] + x);
        assert(b =~= seq![b[0]] + y);
    }
}

/// Putting tasks in order loses none and adds none.
pub proof fn ordering_keeps_tasks(s: Seq<TaskView>, from: Seq<TaskView>, t: TaskView)
    requires
        ordering_of(s, from),
    ensures
        s.contains(t) <==> from.contains(t),
{
    lemma_ordering_covers(s, from, t);
    assert forall|x: TaskView| from.filter(#[trigger] level_with(x)) == s.filter(level_with(x)) by {
        assert(s.filter(level_with(x)) == from.filter(level_with(x)));
    }
    lemma_ordering_covers(from, s, t);
}

proof fn lemma_ordering_covers(s: Seq<TaskView>, from: Seq<TaskView>, t: TaskView)
    requires
        forall|x: TaskView| s.filter(#[trigger] level_with(x)) == from.filter(level_with(x)),
    ensures
        s.contains(t) ==> from.contains(t),
{
    broadcast use vstd::seq_lib::group_filter_ensures;

    if s.contains(t) {
        let p = level_with(t);
        let i = choose|i: int| 0 <= i < s.len() && s[i] == t;
        assert(p(s[i]));
        assert(s.filter(p).contains(s[i]));
        let k = choose|k: int| 0 <= k < from.filter(p).len() && from.filter(p)[k] == t;
        task_list::lemma_filter_from(from, p, k);
    }
}

} // verus!
