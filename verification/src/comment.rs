//! How metadata comments behave when a text is put together or rewritten.

use crate::pattern;
use crate::unicode;
use vstd::prelude::*;

verus! {

/// The metadata comment that is written around a payload.
pub open spec fn comment_text(payload: Seq<char>) -> Seq<char> {
    "<!-- ralph:metadata:v1 "@ + payload + pattern::comment_close()
}

/// A payload that can be read back: it is on one line, and the first ` -->` after its start
/// is the one that ends the comment.
pub open spec fn payload_fits(payload: Seq<char>) -> bool {
    &&& !payload.contains('\n')
    &&& forall|i: int|
        0 <= i < payload.len() ==> !pattern::comment_close().is_prefix_of(
            #[trigger] (payload + pattern::comment_close()).skip(i),
        )
}

/// Where the payload begins in a comment that was written.
pub open spec fn payload_start() -> int {
    pattern::comment_open().len() + 2int
}

proof fn lemma_literals()
    ensures
        pattern::comment_open().len() == 21,
        pattern::comment_close().len() == 4,
        pattern::comment_close()[0] == ' ',
        pattern::comment_close()[1] == '-',
        pattern::comment_close()[2] == '-',
        pattern::comment_close()[3] == '>',
        pattern::comment_open()[0] == '<',
        forall|i: int| 0 < i < 21 ==> #[trigger] pattern::comment_open()[i] != '<',
        forall|i: int| 0 <= i < 21 ==> #[trigger] pattern::comment_open()[i] != '\n',
        "<!-- ralph:metadata:v1 "@ =~= pattern::comment_open() + seq!['1', ' '],
        !unicode::decimal_digit('<'),
        !unicode::decimal_digit('\n'),
        !unicode::decimal_digit(' '),
        unicode::decimal_digit('1'),
{
    reveal_strlit("<!-- ralph:metadata:v");
    reveal_strlit(" -->");
    reveal_strlit("<!-- ralph:metadata:v1 ");
    unicode::lemma_decimal_digit('<');
    unicode::lemma_decimal_digit('\n');
    unicode::lemma_decimal_digit(' ');
    unicode::lemma_decimal_digit('1');
}

/// A written comment is a comment, whatever follows it.
pub proof fn lemma_written_comment(payload: Seq<char>, rest: Seq<char>)
    requires
        payload_fits(payload),
    ensures
        pattern::comment_at_head(comment_text(payload) + rest) == Some(
            (payload_start(), payload_start() + payload.len()),
        ),
        pattern::comment_len(payload_start() + payload.len()) == comment_text(payload).len(),
        (comment_text(payload) + rest).subrange(
            payload_start(),
            payload_start() + payload.len(),
        ) == payload,
{
    lemma_literals();
    let s = comment_text(payload) + rest;
    let p = payload_start();
    let e = p + payload.len();
    assert(pattern::comment_open() =~= s.subrange(0, 21));
    assert(pattern::comment_close() =~= s.skip(e).subrange(0, 4));
    assert(s.subrange(p, e) =~= payload);
    assert forall|i: int| p <= i < e implies #[trigger] s[i] != '\n' by {
        assert(s[i] == payload[i - p]);
    }
    assert forall|i: int| p <= i < e implies !pattern::comment_close().is_prefix_of(
        #[trigger] s.skip(i),
    ) by {
        let tail = (payload + pattern::comment_close()).skip(i - p);
        assert(!pattern::comment_close().is_prefix_of(tail));
        assert(tail.subrange(0, 4) =~= s.skip(i).subrange(0, 4));
    }
    assert(pattern::is_comment(s, p, e));
    pattern::lemma_comment_unique(s, p, e);
}

/// Rewriting leaves everything before the first comment as it was.
proof fn lemma_replaced_split(s: Seq<char>, by: Seq<char>) -> (f: int)
    ensures
        0 <= f <= s.len(),
        f <= pattern::comments_replaced(s, by).len(),
        pattern::comments_replaced(s, by).take(f) == s.take(f),
        f == s.len() ==> pattern::comments_replaced(s, by) == s,
        f < s.len() ==> pattern::comment_at_head(s.skip(f)) is Some && by.is_prefix_of(
            pattern::comments_replaced(s, by).skip(f),
        ),
        (s.len() > 0 && pattern::comment_at_head(s) is None) ==> f > 0,
    decreases s.len(),
{
    let t = pattern::comments_replaced(s, by);
    if s.len() == 0 {
        assert(t =~= s);
        0
    } else if pattern::comment_at_head(s) is Some {
        assert(s.skip(0) =~= s);
        assert(t.skip(0) =~= t);
        assert(t.subrange(0, by.len() as int) =~= by);
        assert(t.take(0) =~= s.take(0));
        0
    } else {
        let g = lemma_replaced_split(s.drop_first(), by);
        let u = pattern::comments_replaced(s.drop_first(), by);
        assert(t == seq![s[0]] + u);
        assert(t.take(g + 1) =~= s.take(g + 1)) by {
            assert forall|i: int| 0 <= i < g + 1 implies t[i] == s[i] by {
                if i > 0 {
                    assert(u.take(g)[i - 1] == s.drop_first().take(g)[i - 1]);
                }
            }
        }
        if g == s.drop_first().len() {
            assert(t =~= s);
        } else {
            assert(s.skip(g + 1) =~= s.drop_first().skip(g));
            assert(t.skip(g + 1) =~= u.skip(g));
        }
        g + 1
    }
}

/// Rewriting makes no comment where there was none.
proof fn lemma_replaced_head(s: Seq<char>, payload: Seq<char>)
    requires
        payload_fits(payload),
        s.len() > 0,
        pattern::comment_at_head(s) is None,
    ensures
        pattern::comment_at_head(pattern::comments_replaced(s, comment_text(payload))) is None,
{
    lemma_literals();
    let c = comment_text(payload);
    let t = pattern::comments_replaced(s, c);
    let f = lemma_replaced_split(s, c);
    if pattern::comment_at_head(t) is Some {
        pattern::lemma_comment_at_head(t);
        pattern::lemma_comment_at_head(s);
        let (p, e) = pattern::comment_at_head(t)->0;
        assert(pattern::is_comment(t, p, e));
        if f == s.len() {
            assert(pattern::is_comment(s, p, e));
        } else if pattern::comment_len(e) <= f {
            assert(t.take(pattern::comment_len(e)) =~= s.take(pattern::comment_len(e))) by {
                assert forall|i: int| 0 <= i < pattern::comment_len(e) implies t[i] == s[i] by {
                    assert(t.take(f)[i] == s.take(f)[i]);
                }
            }
            pattern::lemma_comment_local(t, s, p, e);
        } else {
            assert(t[f] == '<') by {
                assert(t.skip(f).subrange(0, c.len() as int) == c);
                assert(c[0] == '<');
                assert(t.skip(f)[0] == c[0]);
            }
            assert(t.subrange(0, 21) == pattern::comment_open());
            assert(t.skip(e).subrange(0, 4) == pattern::comment_close());
            if f < 21 {
                assert(t.subrange(0, 21)[f] == pattern::comment_open()[f]);
                assert(false);
            } else if f < p - 1 {
                assert(unicode::decimal_digit(t[f]));
                assert(false);
            } else if f == p - 1 {
                assert(false);
            } else if f >= e {
                assert(t.skip(e).subrange(0, 4)[f - e] == t[f]);
                assert(pattern::comment_close()[f - e] == t[f]);
                assert(false);
            }
            assert(p <= f < e);
            lemma_joined_head(s, t, f, p, e);
        }
        assert(false);
    }
}

/// A comment that would reach over position `f` of a text, where another comment begins,
/// begins in the text already.
proof fn lemma_joined_head(s: Seq<char>, t: Seq<char>, f: int, p: int, e: int)
    requires
        pattern::is_comment(t, p, e),
        p <= f < e,
        f < s.len(),
        f <= t.len(),
        t.take(f) == s.take(f),
        pattern::comment_at_head(s.skip(f)) is Some,
    ensures
        pattern::comment_at_head(s) is Some,
{
    lemma_literals();
    assert forall|i: int| 0 <= i < f implies #[trigger] s[i] == t[i] by {
        assert(s.take(f)[i] == s[i]);
        assert(t.take(f)[i] == t[i]);
    }
    let u = s.skip(f);
    pattern::lemma_comment_at_head(u);
    let (p2, e2) = pattern::comment_at_head(u)->0;
    assert(pattern::is_comment(u, p2, e2));
    assert(u.subrange(0, 21) == pattern::comment_open());
    assert forall|i: int| p <= i < f + e2 implies #[trigger] s[i] != '\n' by {
        if i < f {
            assert(t[i] != '\n');
        } else {
            assert(s[i] == u[i - f]);
            if i - f < 21 {
                assert(u.subrange(0, 21)[i - f] == pattern::comment_open()[i - f]);
            } else if i - f < p2 - 1 {
                assert(unicode::decimal_digit(u[i - f]));
            } else if i - f >= p2 {
                assert(u[i - f] != '\n');
            }
        }
    }
    assert(s.skip(f + e2) =~= u.skip(e2));
    let k = lemma_first_close(s, p, f + e2);
    assert(pattern::comment_open().is_prefix_of(s)) by {
        assert(s.subrange(0, 21) =~= t.subrange(0, 21));
    }
    assert forall|i: int| pattern::comment_open().len() <= i < p - 1 implies unicode::decimal_digit(
        #[trigger] s[i],
    ) by {
        assert(unicode::decimal_digit(t[i]));
    }
    assert(s[p - 1] == t[p - 1]);
    assert(pattern::is_comment(s, p, k));
    pattern::lemma_comment_unique(s, p, k);
}

/// The first place from `p` on at which the end of a comment stands.
proof fn lemma_first_close(s: Seq<char>, p: int, to: int) -> (k: int)
    requires
        0 <= p <= to,
        to + pattern::comment_close().len() <= s.len(),
        pattern::comment_close().is_prefix_of(s.skip(to)),
    ensures
        p <= k <= to,
        pattern::comment_close().is_prefix_of(s.skip(k)),
        forall|i: int| p <= i < k ==> !pattern::comment_close().is_prefix_of(#[trigger] s.skip(i)),
    decreases to - p,
{
    if pattern::comment_close().is_prefix_of(s.skip(p)) {
        p
    } else {
        lemma_first_close(s, p + 1, to)
    }
}

/// After rewriting, the comments of a text are as many as before and all the new one.
pub proof fn lemma_replaced_comments(s: Seq<char>, payload: Seq<char>)
    requires
        payload_fits(payload),
    ensures
        pattern::comments(pattern::comments_replaced(s, comment_text(payload))) == Seq::new(
            pattern::comments(s).len(),
            |i: int| comment_text(payload),
        ),
    decreases s.len(),
{
    let c = comment_text(payload);
    let t = pattern::comments_replaced(s, c);
    lemma_literals();
    if s.len() == 0 {
        assert(pattern::comments(t) =~= Seq::new(0, |i: int| c));
    } else {
        match pattern::comment_at_head(s) {
            Some((p, e)) => {
                let rest = s.skip(pattern::comment_len(e));
                assert(0 < pattern::comment_len(e) <= s.len()) by {
                    pattern::lemma_comment_at_head(s);
                }
                let u = pattern::comments_replaced(rest, c);
                assert(t == c + u);
                lemma_replaced_comments(rest, payload);
                lemma_written_comment(payload, u);
                assert(t.take(c.len() as int) =~= c);
                assert(t.skip(c.len() as int) =~= u);
                assert(pattern::comments(t) == seq![c] + pattern::comments(u));
                assert(pattern::comments(t) =~= Seq::new(pattern::comments(s).len(), |i: int| c));
            },
            None => {
                lemma_replaced_head(s, payload);
                let u = pattern::comments_replaced(s.drop_first(), c);
                assert(t == seq![s[0]] + u);
                assert(t.drop_first() =~= u);
                lemma_replaced_comments(s.drop_first(), payload);
            },
        }
    }
}

/// Rewriting twice is rewriting once with the later text.
pub proof fn lemma_replaced_again(s: Seq<char>, payload: Seq<char>, by: Seq<char>)
    requires
        payload_fits(payload),
    ensures
        pattern::comments_replaced(pattern::comments_replaced(s, comment_text(payload)), by) == pattern::comments_replaced(
            s,
            by,
        ),
    decreases s.len(),
{
    let c = comment_text(payload);
    let t = pattern::comments_replaced(s, c);
    lemma_literals();
    if s.len() > 0 {
        match pattern::comment_at_head(s) {
            Some((p, e)) => {
                let rest = s.skip(pattern::comment_len(e));
                assert(0 < pattern::comment_len(e) <= s.len()) by {
                    pattern::lemma_comment_at_head(s);
                }
                let u = pattern::comments_replaced(rest, c);
                assert(t == c + u);
                lemma_replaced_again(rest, payload, by);
                lemma_written_comment(payload, u);
                assert(t.skip(c.len() as int) =~= u);
            },
            None => {
                lemma_replaced_head(s, payload);
                let u = pattern::comments_replaced(s.drop_first(), c);
                assert(t == seq![s[0]] + u);
                assert(t.drop_first() =~= u);
                lemma_replaced_again(s.drop_first(), payload, by);
            },
        }
    }
}

/// A text without comments stays as it is.
pub proof fn lemma_replaced_none(s: Seq<char>, by: Seq<char>)
    requires
        pattern::comments(s).len() == 0,
    ensures
        pattern::comments_replaced(s, by) == s,
    decreases s.len(),
{
    if s.len() > 0 {
        lemma_replaced_none(s.drop_first(), by);
        assert(seq![s[0]] + s.drop_first() =~= s);
    } else {
        assert(pattern::comments_replaced(s, by) =~= s);
    }
}

/// Nothing that is put after a text on another line makes its head a comment.
pub(crate) proof fn lemma_appended_head(s: Seq<char>, more: Seq<char>)
    requires
        pattern::comment_at_head(s) is None,
    ensures
        pattern::comment_at_head(s + "\n\n"@ + more) is None,
{
    reveal_strlit("\n\n");
    lemma_literals();
    let t = s + "\n\n"@ + more;
    pattern::lemma_comment_at_head(t);
    pattern::lemma_comment_at_head(s);
    if pattern::comment_at_head(t) is Some {
        let (p, e) = pattern::comment_at_head(t)->0;
        let k = s.len() as int;
        assert(t[k] == '\n');
        if pattern::comment_len(e) <= k {
            assert(t.take(pattern::comment_len(e)) =~= s.take(pattern::comment_len(e)));
            pattern::lemma_comment_local(t, s, p, e);
        } else {
            assert(t.subrange(0, 21) == pattern::comment_open());
            assert(t.skip(e).subrange(0, 4) == pattern::comment_close());
            if k < 21 {
                assert(t.subrange(0, 21)[k] == pattern::comment_open()[k]);
            } else if k < p - 1 {
                assert(unicode::decimal_digit(t[k]));
            } else if k >= e {
                assert(t.skip(e).subrange(0, 4)[k - e] == t[k]);
                assert(pattern::comment_close()[k - e] == t[k]);
            }
        }
        assert(false);
    }
}

/// A comment that is put on a line of its own after a text without comments is the only one.
pub proof fn lemma_appended_comment(s: Seq<char>, payload: Seq<char>, by: Seq<char>)
    requires
        payload_fits(payload),
        pattern::comments(s).len() == 0,
    ensures
        pattern::comments(s + "\n\n"@ + comment_text(payload)) == seq![comment_text(payload)],
        pattern::comments_replaced(s + "\n\n"@ + comment_text(payload), by) == s + "\n\n"@ + by,
    decreases s.len(),
{
    reveal_strlit("\n\n");
    lemma_literals();
    let c = comment_text(payload);
    let t = s + "\n\n"@ + c;
    if s.len() == 0 {
        assert(t =~= seq!['\n', '\n'] + c);
        lemma_no_comment_at(t, '\n');
        let u = seq!['\n'] + c;
        assert(t.drop_first() =~= u);
        lemma_no_comment_at(u, '\n');
        assert(u.drop_first() =~= c);
        lemma_alone(payload, by);
        assert(pattern::comments(u) == pattern::comments(c));
        assert(pattern::comments(t) == pattern::comments(u));
        assert(pattern::comments_replaced(u, by) == seq!['\n'] + by);
        assert(pattern::comments_replaced(t, by) == seq!['\n'] + (seq!['\n'] + by));
        assert(pattern::comments_replaced(t, by) =~= s + "\n\n"@ + by);
    } else {
        lemma_appended_head(s, c);
        lemma_appended_comment(s.drop_first(), payload, by);
        assert(t.drop_first() =~= s.drop_first() + "\n\n"@ + c);
        assert(pattern::comments(t) == pattern::comments(t.drop_first()));
        assert(pattern::comments_replaced(t, by) =~= s + "\n\n"@ + by);
    }
}

/// No comment begins with any character but `<`.
proof fn lemma_no_comment_at(s: Seq<char>, c: char)
    requires
        s.len() > 0,
        s[0] == c,
        c != '<',
    ensures
        pattern::comment_at_head(s) is None,
{
    lemma_literals();
    pattern::lemma_comment_at_head(s);
    if pattern::comment_at_head(s) is Some {
        assert(s.subrange(0, 21) == pattern::comment_open());
        assert(s.subrange(0, 21)[0] == s[0]);
    }
}

/// A written comment by itself is the only comment in the text.
pub proof fn lemma_alone(payload: Seq<char>, by: Seq<char>)
    requires
        payload_fits(payload),
    ensures
        pattern::comments(comment_text(payload)) == seq![comment_text(payload)],
        pattern::comments_replaced(comment_text(payload), by) == by,
        pattern::first_comment(comment_text(payload)) == Some(seq![comment_text(payload), payload]),
{
    lemma_literals();
    let c = comment_text(payload);
    lemma_written_comment(payload, seq![]);
    assert(c + Seq::<char>::empty() =~= c);
    let rest = c.skip(c.len() as int);
    assert(rest.len() == 0);
    assert(c.take(c.len() as int) =~= c);
    assert(pattern::comments(rest) =~= Seq::<Seq<char>>::empty());
    assert(pattern::comments_replaced(rest, by) =~= Seq::<char>::empty());
    assert(pattern::comments(c) =~= seq![c]);
    assert(pattern::comments_replaced(c, by) =~= by);
}

} // verus!
