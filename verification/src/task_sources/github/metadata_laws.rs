//! What is read from the metadata comments of issue bodies, and what is written to them.

use crate::comment;
use crate::json;
use crate::pattern;
use crate::record::Member;
use crate::task_sources::github::metadata;
use crate::task_sources::github::metadata::{
    decode_metadata, parse_metadata, strip_metadata, write_metadata, IssueMetadata,
    IssueMetadataView,
};
use crate::task_sources::github::reply_laws;
use crate::text;
use crate::text_laws;
use crate::unicode;
use vstd::prelude::*;
use vstd::string::*;

verus! {

/// Whether a text holds the four characters that end a comment.
pub open spec fn ends_comment(s: Seq<char>) -> bool {
    exists|i: int| 0 <= i && i + 4 <= s.len() && #[trigger] s.subrange(i, i + 4) == " -->"@
}

/// Whether metadata says anything.
pub open spec fn says_something(m: IssueMetadata) -> bool {
    m.blocked_by@.len() > 0 || m.started is Some || m.closed is Some || m.key is Some || m.loop_id
        is Some || m.priority is Some
}

/// Whether none of the strings of the metadata ends a comment.
pub open spec fn keeps_comments_open(m: IssueMetadata) -> bool {
    &&& forall|i: int| 0 <= i < m.blocked_by@.len() ==> !ends_comment((#[trigger] m.blocked_by@[i])@)
    &&& m.started matches Some(s) ==> !ends_comment(s@)
    &&& m.closed matches Some(s) ==> !ends_comment(s@)
    &&& m.key matches Some(s) ==> !ends_comment(s@)
    &&& m.loop_id matches Some(s) ==> !ends_comment(s@)
}

/// Whether two values hold the same metadata.
pub open spec fn same_metadata(a: IssueMetadata, b: IssueMetadata) -> bool {
    &&& a.blocked_by@.len() == b.blocked_by@.len()
    &&& forall|i: int|
        0 <= i < a.blocked_by@.len() ==> (#[trigger] a.blocked_by@[i])@ == b.blocked_by@[i]@
    &&& json::opt_text(a.started) == json::opt_text(b.started)
    &&& json::opt_text(a.closed) == json::opt_text(b.closed)
    &&& json::opt_text(a.key) == json::opt_text(b.key)
    &&& json::opt_text(a.loop_id) == json::opt_text(b.loop_id)
    &&& a.priority == b.priority
}

proof fn lemma_open(s: Seq<char>)
    requires
        !ends_comment(s),
    ensures
        metadata::no_comment_end(s),
{
    reveal_strlit(" -->");
    if text::holds_text(s, pattern::comment_close()) {
        let i = choose|i: int|
            0 <= i <= s.len() && pattern::comment_close().is_prefix_of(#[trigger] s.skip(i));
        assert(s.subrange(i, i + 4) =~= s.skip(i).subrange(0, 4));
    }
}

proof fn lemma_fits(m: IssueMetadata)
    requires
        keeps_comments_open(m),
    ensures
        metadata::fits_in_comment(m@),
{
    assert forall|i: int| 0 <= i < m@.blocked_by.len() implies metadata::no_comment_end(
        #[trigger] m@.blocked_by[i],
    ) by {
        assert(m@.blocked_by[i] == m.blocked_by@[i]@);
        lemma_open(m.blocked_by@[i]@);
    }
    if let Some(s) = m.started {
        lemma_open(s@);
    }
    if let Some(s) = m.closed {
        lemma_open(s@);
    }
    if let Some(s) = m.key {
        lemma_open(s@);
    }
    if let Some(s) = m.loop_id {
        lemma_open(s@);
    }
}

proof fn lemma_says(m: IssueMetadata)
    ensures
        says_something(m) <==> m@ != metadata::no_metadata(),
{
    assert(m@.blocked_by.len() == m.blocked_by@.len());
    if !says_something(m) {
        assert(m@ =~= metadata::no_metadata());
    }
}

proof fn lemma_same(a: IssueMetadata, b: IssueMetadata)
    requires
        a@ == b@,
    ensures
        same_metadata(a, b),
{
    assert(a@.blocked_by.len() == a.blocked_by@.len());
    assert(b@.blocked_by.len() == b.blocked_by@.len());
    assert forall|i: int| 0 <= i < a.blocked_by@.len() implies (#[trigger] a.blocked_by@[i])@
        == b.blocked_by@[i]@ by {
        assert(a@.blocked_by[i] == a.blocked_by@[i]@);
        assert(b@.blocked_by[i] == b.blocked_by@[i]@);
    }
}

/// Metadata that was written to a body, whatever the body held before, is read back from it
/// with every field as it was, unless one of its strings ends the comment early. What the body
/// shows stays what it was.
pub proof fn written_metadata_is_read_back(
    body: &str,
    m: IssueMetadata,
    r: String,
    t: &str,
    back: IssueMetadata,
    shown: String,
    before: String,
)
    requires
        call_ensures(write_metadata, (body, &m), r),
        t@ == r@,
        call_ensures(parse_metadata, (t,), back),
        call_ensures(strip_metadata, (t,), shown),
        call_ensures(strip_metadata, (body,), before),
        says_something(m),
        keeps_comments_open(m),
    ensures
        same_metadata(back, m),
        shown@ == before@,
{
    lemma_fits(m);
    lemma_says(m);
    lemma_same(back, m);
    metadata::strip_undoes_write(body@, m@);
}

/// Whether a metadata comment may begin somewhere in a text.
pub open spec fn opens_comment(s: Seq<char>) -> bool {
    exists|i: int|
        0 <= i && i + 21 <= s.len() && #[trigger] s.subrange(i, i + 21) == "<!-- ralph:metadata:v"@
}

proof fn lemma_no_comments(s: Seq<char>)
    requires
        !opens_comment(s),
    ensures
        pattern::comments(s).len() == 0,
    decreases s.len(),
{
    reveal_strlit("<!-- ralph:metadata:v");
    if s.len() > 0 {
        pattern::lemma_comment_at_head(s);
        if let Some((p, e)) = pattern::comment_at_head(s) {
            let i: int = 0;
            assert(s.subrange(i, i + 21) == "<!-- ralph:metadata:v"@);
        }
        let rest = s.drop_first();
        if opens_comment(rest) {
            let i = choose|i: int|
                0 <= i && i + 21 <= rest.len() && #[trigger] rest.subrange(i, i + 21)
                    == "<!-- ralph:metadata:v"@;
            assert(s.subrange(i + 1, i + 1 + 21) =~= rest.subrange(i, i + 21));
        }
        lemma_no_comments(rest);
    }
}

/// A body in which no metadata comment begins says nothing and is shown as it is, but for the
/// white space at its end. Metadata is put behind it in a comment of its own, after an empty
/// line where there is a body; where there is nothing to say it is left alone.
pub proof fn plain_bodies_are_kept(
    body: &str,
    read: IssueMetadata,
    shown: String,
    m: IssueMetadata,
    r: String,
)
    requires
        call_ensures(parse_metadata, (body,), read),
        call_ensures(strip_metadata, (body,), shown),
        call_ensures(write_metadata, (body, &m), r),
        !opens_comment(body@),
    ensures
        !says_something(read),
        shown@.is_prefix_of(body@),
        text_laws::blank(body@.skip(shown@.len() as int)),
        shown@.len() > 0 ==> !unicode::white_space(shown@.last()),
        !says_something(m) ==> r@ == body@,
        says_something(m) ==> r@ == (if body@.len() == 0 {
            Seq::<char>::empty()
        } else {
            body@ + "\n\n"@
        }) + "<!-- ralph:metadata:v1 "@ + payload_of(m) + " -->"@,
{
    lemma_no_comments(body@);
    lemma_says(read);
    lemma_says(m);
    comment::lemma_replaced_none(body@, seq![]);
    text_laws::lemma_end_core(body@);
    if says_something(m) {
        lemma_payload(m);
        let c = metadata::metadata_comment(m@);
        assert(c =~= Seq::<char>::empty() + "<!-- ralph:metadata:v1 "@ + payload_of(m) + " -->"@);
        if body@.len() > 0 {
            assert(body@ + "\n\n"@ + c =~= body@ + "\n\n"@ + "<!-- ralph:metadata:v1 "@ + payload_of(
                m,
            ) + " -->"@);
        }
    }
}

/// The JSON object that metadata is written as: the fields that are set, by their names.
pub open spec fn payload_of(m: IssueMetadata) -> Seq<char> {
    reply_laws::object_of(
        (if m.blocked_by@.len() > 0 {
            seq![("blocked_by"@, json::json_list_text(pattern::texts(m.blocked_by@)))]
        } else {
            seq![]
        }) + reply_laws::member_if("started"@, reply_laws::json_of(m.started))
            + reply_laws::member_if("closed"@, reply_laws::json_of(m.closed))
            + reply_laws::member_if("key"@, reply_laws::json_of(m.key)) + reply_laws::member_if(
            "loop_id"@,
            reply_laws::json_of(m.loop_id),
        ) + (if m.priority is Some {
            seq![("priority"@, text::decimal_text(m.priority->0 as nat))]
        } else {
            seq![]
        }),
    )
}

proof fn lemma_payload(m: IssueMetadata)
    ensures
        metadata::encoded(m@) == payload_of(m),
{
    let ms = metadata::encoded_members(m@);
    reply_laws::lemma_object(ms);
    assert(m@.blocked_by.len() == m.blocked_by@.len());
    assert(ms =~= (if m.blocked_by@.len() > 0 {
        seq![("blocked_by"@, json::json_list_text(pattern::texts(m.blocked_by@)))]
    } else {
        seq![]
    }) + reply_laws::member_if("started"@, reply_laws::json_of(m.started)) + reply_laws::member_if(
        "closed"@,
        reply_laws::json_of(m.closed),
    ) + reply_laws::member_if("key"@, reply_laws::json_of(m.key)) + reply_laws::member_if(
        "loop_id"@,
        reply_laws::json_of(m.loop_id),
    ) + (if m.priority is Some {
        seq![("priority"@, text::decimal_text(m.priority->0 as nat))]
    } else {
        seq![]
    }));
}

/// A comment that stands on a line of its own at the end of a body is the last one.
proof fn lemma_last_comment(s: Seq<char>, payload: Seq<char>)
    requires
        comment::payload_fits(payload),
    ensures
        pattern::comments(s + "\n\n"@ + comment::comment_text(payload)) == pattern::comments(s).push(
            comment::comment_text(payload),
        ),
    decreases s.len(),
{
    reveal_strlit("\n\n");
    let c = comment::comment_text(payload);
    let t = s + "\n\n"@ + c;
    pattern::lemma_comment_at_head(s);
    if s.len() == 0 {
        comment::lemma_appended_comment(s, payload, seq![]);
        assert(pattern::comments(s).push(c) =~= seq![c]);
    } else {
        match pattern::comment_at_head(s) {
            Some((p, e)) => {
                let n = pattern::comment_len(e);
                assert(t.take(n) =~= s.take(n));
                pattern::lemma_comment_local(s, t, p, e);
                pattern::lemma_comment_unique(t, p, e);
                let rest = s.skip(n);
                assert(t.skip(n) =~= rest + "\n\n"@ + c);
                lemma_last_comment(rest, payload);
                assert(pattern::comments(t) =~= pattern::comments(s).push(c));
            },
            None => {
                comment::lemma_appended_head(s, c);
                let rest = s.drop_first();
                assert(t.drop_first() =~= rest + "\n\n"@ + c);
                lemma_last_comment(rest, payload);
            },
        }
    }
}

/// Of several metadata comments the last counts: where a comment that was written for an empty
/// body stands on a line of its own behind any text, comments and all, the metadata of the
/// whole is that of the comment.
pub proof fn last_comment_counts(
    s: Seq<char>,
    nothing: &str,
    m: IssueMetadata,
    c: String,
    t: &str,
    read: IssueMetadata,
)
    requires
        nothing@.len() == 0,
        call_ensures(write_metadata, (nothing, &m), c),
        says_something(m),
        keeps_comments_open(m),
        t@ == s + "\n\n"@ + c@,
        call_ensures(parse_metadata, (t,), read),
    ensures
        same_metadata(read, m),
{
    lemma_fits(m);
    lemma_says(m);
    metadata::lemma_encoded_fits(m@);
    assert(nothing@ =~= Seq::<char>::empty());
    lemma_no_comments_in_nothing(nothing@);
    let payload = metadata::encoded(m@);
    assert(c@ == comment::comment_text(payload));
    lemma_last_comment(s, payload);
    comment::lemma_alone(payload, seq![]);
    assert(metadata::last_payload(t@) == Some(payload));
    assert(metadata::last_payload(c@) == Some(payload));
    lemma_same(read, m);
}

proof fn lemma_no_comments_in_nothing(s: Seq<char>)
    requires
        s.len() == 0,
    ensures
        pattern::comments(s).len() == 0,
{
}

/// Whether a field is absent from the members or is there once, with a value that is the
/// string or null.
pub open spec fn field_is(ms: Seq<Member>, name: Seq<char>, v: Option<Seq<char>>) -> bool {
    ||| v is None && forall|i: int| 0 <= i < ms.len() ==> (#[trigger] ms[i]).0 != name
    ||| exists|i: int|
        0 <= i < ms.len() && (#[trigger] ms[i]).0 == name && json::json_optional_string(ms[i].1)
            == Some(v) && forall|j: int|
            0 <= j < ms.len() && j != i ==> (#[trigger] ms[j]).0 != name
}

/// Whether at most one member has the name.
pub open spec fn once_at_most(ms: Seq<Member>, name: Seq<char>) -> bool {
    forall|i: int, j: int|
        0 <= i < j < ms.len() ==> !((#[trigger] ms[i]).0 == name && (#[trigger] ms[j]).0 == name)
}

proof fn lemma_values(ms: Seq<Member>, name: Seq<char>)
    ensures
        ({
            let vs = metadata::values_of(ms, name);
            &&& vs.len() == 0 <==> forall|i: int| 0 <= i < ms.len() ==> (#[trigger] ms[i]).0 != name
            &&& vs.len() == 1 ==> exists|i: int|
                0 <= i < ms.len() && (#[trigger] ms[i]).0 == name && ms[i].1 == vs[0] && forall|
                    j: int,
                |
                    0 <= j < ms.len() && j != i ==> (#[trigger] ms[j]).0 != name
            &&& vs.len() > 1 ==> !once_at_most(ms, name)
        }),
    decreases ms.len(),
{
    if ms.len() > 0 {
        let front = ms.drop_last();
        let n = ms.len() - 1;
        lemma_values(front, name);
        let vs = metadata::values_of(ms, name);
        let before = metadata::values_of(front, name);
        if vs.len() > 1 {
            if before.len() > 1 {
                let (i, j) = choose|i: int, j: int|
                    0 <= i < j < front.len() && (#[trigger] front[i]).0 == name && (
                    #[trigger] front[j]).0 == name;
                assert(ms[i].0 == name && ms[j].0 == name);
            } else {
                assert(before.len() == 1);
                let i = choose|i: int|
                    0 <= i < front.len() && (#[trigger] front[i]).0 == name && front[i].1
                        == before[0] && forall|j: int|
                        0 <= j < front.len() && j != i ==> (#[trigger] front[j]).0 != name;
                assert(ms[i].0 == name && ms[n].0 == name);
            }
        }
        if ms.last().0 == name {
            assert(ms[n].0 == name);
            if vs.len() == 1 {
                assert(before.len() == 0);
                assert forall|j: int| 0 <= j < ms.len() && j != n implies (#[trigger] ms[j]).0
                    != name by {
                    assert(front[j] == ms[j]);
                }
                assert(ms[n].1 == vs[0]);
            }
        } else {
            if vs.len() == 0 {
                assert forall|i: int| 0 <= i < ms.len() implies (#[trigger] ms[i]).0 != name by {
                    if i < n {
                        assert(front[i] == ms[i]);
                    }
                }
            } else {
                assert(!(forall|i: int| 0 <= i < front.len() ==> (#[trigger] front[i]).0 != name));
                let i = choose|i: int| 0 <= i < front.len() && (#[trigger] front[i]).0 == name;
                assert(ms[i].0 == name);
            }
            if vs.len() == 1 {
                let i = choose|i: int|
                    0 <= i < front.len() && (#[trigger] front[i]).0 == name && front[i].1 == vs[0]
                        && forall|j: int|
                        0 <= j < front.len() && j != i ==> (#[trigger] front[j]).0 != name;
                assert forall|j: int| 0 <= j < ms.len() && j != i implies (#[trigger] ms[j]).0
                    != name by {
                    if j < n {
                        assert(front[j] == ms[j]);
                    }
                }
                assert(ms[i] == front[i]);
            }
        }
    }
}

/// What metadata says, the members of the object that it was read from say: each field is the
/// value of the one member with its name, and is not set where there is no such member.
pub proof fn members_say_the_fields(ms: Seq<Member>, m: IssueMetadataView)
    requires
        metadata::metadata_of_members(ms) == Some(m),
    ensures
        field_is(ms, "started"@, m.started),
        field_is(ms, "closed"@, m.closed),
        field_is(ms, "key"@, m.key),
        field_is(ms, "loop_id"@, m.loop_id),
        (forall|i: int| 0 <= i < ms.len() ==> (#[trigger] ms[i]).0 != "blocked_by"@)
            ==> m.blocked_by.len() == 0,
        forall|i: int|
            0 <= i < ms.len() && (#[trigger] ms[i]).0 == "blocked_by"@ ==> json::json_strings(
                ms[i].1,
            ) == Some(m.blocked_by),
        (forall|i: int| 0 <= i < ms.len() ==> (#[trigger] ms[i]).0 != "priority"@) ==> m.priority
            is None,
        forall|i: int|
            0 <= i < ms.len() && (#[trigger] ms[i]).0 == "priority"@ ==> json::json_optional_u8(
                ms[i].1,
            ) == Some(m.priority),
{
    lemma_values(ms, "started"@);
    lemma_values(ms, "closed"@);
    lemma_values(ms, "key"@);
    lemma_values(ms, "loop_id"@);
    lemma_values(ms, "blocked_by"@);
    lemma_values(ms, "priority"@);
}

/// Members make metadata where none of its six fields occurs twice and the value of each is of
/// its kind, whatever other members there are; else they make none.
pub proof fn members_make_metadata(ms: Seq<Member>)
    ensures
        metadata::metadata_of_members(ms) is Some <==> {
            &&& once_at_most(ms, "blocked_by"@)
            &&& once_at_most(ms, "started"@)
            &&& once_at_most(ms, "closed"@)
            &&& once_at_most(ms, "key"@)
            &&& once_at_most(ms, "loop_id"@)
            &&& once_at_most(ms, "priority"@)
            &&& forall|i: int|
                0 <= i < ms.len() ==> {
                    &&& (#[trigger] ms[i]).0 == "blocked_by"@ ==> json::json_strings(ms[i].1)
                        is Some
                    &&& ms[i].0 == "started"@ || ms[i].0 == "closed"@ || ms[i].0 == "key"@
                        || ms[i].0 == "loop_id"@ ==> json::json_optional_string(ms[i].1) is Some
                    &&& ms[i].0 == "priority"@ ==> json::json_optional_u8(ms[i].1) is Some
                }
        },
{
    lemma_values(ms, "started"@);
    lemma_values(ms, "closed"@);
    lemma_values(ms, "key"@);
    lemma_values(ms, "loop_id"@);
    lemma_values(ms, "blocked_by"@);
    lemma_values(ms, "priority"@);
}

/// An array makes metadata by its places: blockers, start, end, key, loop and priority, as many
/// as it has; more than six make none.
pub proof fn elements_say_the_fields(es: Seq<Seq<char>>, m: IssueMetadataView)
    requires
        metadata::metadata_of_elements(es) == Some(m),
    ensures
        es.len() <= 6,
        es.len() > 0 ==> json::json_strings(es[0]) == Some(m.blocked_by),
        es.len() == 0 ==> m.blocked_by.len() == 0,
        es.len() > 1 ==> json::json_optional_string(es[1]) == Some(m.started),
        es.len() <= 1 ==> m.started is None,
        es.len() > 2 ==> json::json_optional_string(es[2]) == Some(m.closed),
        es.len() <= 2 ==> m.closed is None,
        es.len() > 3 ==> json::json_optional_string(es[3]) == Some(m.key),
        es.len() <= 3 ==> m.key is None,
        es.len() > 4 ==> json::json_optional_string(es[4]) == Some(m.loop_id),
        es.len() <= 4 ==> m.loop_id is None,
        es.len() > 5 ==> json::json_optional_u8(es[5]) == Some(m.priority),
        es.len() <= 5 ==> m.priority is None,
{
}

/// A payload is read as an array where it is one and as an object where it is one; any other
/// makes no metadata.
pub proof fn payloads_are_arrays_or_objects(payload: &str, r: Option<IssueMetadata>)
    requires
        call_ensures(decode_metadata, (payload,), r),
    ensures
        json::array_elements(payload@) matches Some(es) ==> (r is Some
            <==> metadata::metadata_of_elements(es) is Some) && (r matches Some(m)
            ==> metadata::metadata_of_elements(es) == Some(m@)),
        json::object_members(payload@) matches Some(ms) ==> (r is Some
            <==> metadata::metadata_of_members(ms) is Some) && (r matches Some(m)
            ==> metadata::metadata_of_members(ms) == Some(m@)),
        json::array_elements(payload@) is None && json::object_members(payload@) is None ==> r
            is None,
{
}

proof fn lemma_front(a: Seq<char>, t: Seq<char>, by: Seq<char>)
    requires
        !opens_comment(a),
        t.len() > 0,
        t[0] == '<',
    ensures
        pattern::comments(a + t) == pattern::comments(t),
        pattern::comments_replaced(a + t, by) == a + pattern::comments_replaced(t, by),
    decreases a.len(),
{
    reveal_strlit("<!-- ralph:metadata:v");
    let s = a + t;
    if a.len() == 0 {
        assert(s =~= t);
        assert(a + pattern::comments_replaced(t, by) =~= pattern::comments_replaced(t, by));
    } else {
        pattern::lemma_comment_at_head(s);
        if let Some((p, e)) = pattern::comment_at_head(s) {
            let open = "<!-- ralph:metadata:v"@;
            assert(s.subrange(0, 21) == open);
            if a.len() >= 21 {
                let i: int = 0;
                assert(a.subrange(i, i + 21) =~= open);
            } else {
                assert(s.subrange(0, 21)[a.len() as int] == '<');
            }
        }
        let rest = a.drop_first();
        if opens_comment(rest) {
            let i = choose|i: int|
                0 <= i && i + 21 <= rest.len() && #[trigger] rest.subrange(i, i + 21)
                    == "<!-- ralph:metadata:v"@;
            assert(a.subrange(i + 1, i + 1 + 21) =~= rest.subrange(i, i + 21));
        }
        lemma_front(rest, t, by);
        assert(s.drop_first() =~= rest + t);
        assert(pattern::comments_replaced(s, by) =~= a + pattern::comments_replaced(t, by));
    }
}

proof fn lemma_inside(a: Seq<char>, payload: Seq<char>, b: Seq<char>, by: Seq<char>)
    requires
        comment::payload_fits(payload),
        !opens_comment(a),
        !opens_comment(b),
    ensures
        pattern::comments(a + comment::comment_text(payload) + b) == seq![
            comment::comment_text(payload),
        ],
        pattern::comments_replaced(a + comment::comment_text(payload) + b, by) == a + by + b,
{
    let c = comment::comment_text(payload);
    let t = c + b;
    comment::lemma_written_comment(payload, b);
    lemma_no_comments(b);
    comment::lemma_replaced_none(b, by);
    assert(t.take(c.len() as int) =~= c);
    assert(t.skip(c.len() as int) =~= b);
    assert(pattern::comments(t) =~= seq![c]);
    assert(pattern::comments_replaced(t, by) == by + b);
    reveal_strlit("<!-- ralph:metadata:v1 ");
    assert(t[0] == '<');
    lemma_front(a, t, by);
    assert(a + c + b =~= a + t);
    assert(a + (by + b) =~= a + by + b);
}

/// A comment inside a body is replaced in its place, and the text before it and behind it stays
/// as it is. Where nothing is to be said it is taken out, with the white space that is then at
/// the end; so it is where the body is shown.
pub proof fn comments_are_replaced_in_place(
    a: Seq<char>,
    b: Seq<char>,
    nothing: &str,
    first: IssueMetadata,
    c: String,
    body: &str,
    second: IssueMetadata,
    r: String,
    shown: String,
)
    requires
        !opens_comment(a),
        !opens_comment(b),
        nothing@.len() == 0,
        call_ensures(write_metadata, (nothing, &first), c),
        says_something(first),
        keeps_comments_open(first),
        body@ == a + c@ + b,
        call_ensures(write_metadata, (body, &second), r),
        call_ensures(strip_metadata, (body,), shown),
    ensures
        says_something(second) ==> r@ == a + ("<!-- ralph:metadata:v1 "@ + payload_of(second)
            + " -->"@) + b,
        !says_something(second) ==> r@ == shown@,
        shown@.is_prefix_of(a + b),
        text_laws::blank((a + b).skip(shown@.len() as int)),
        shown@.len() > 0 ==> !unicode::white_space(shown@.last()),
{
    lemma_fits(first);
    lemma_says(first);
    lemma_says(second);
    metadata::lemma_encoded_fits(first@);
    assert(nothing@ =~= Seq::<char>::empty());
    lemma_no_comments_in_nothing(nothing@);
    let payload = metadata::encoded(first@);
    assert(c@ == comment::comment_text(payload));
    lemma_payload(second);
    lemma_inside(a, payload, b, metadata::metadata_comment(second@));
    lemma_inside(a, payload, b, seq![]);
    assert(a + Seq::<char>::empty() + b =~= a + b);
    text_laws::lemma_end_core(a + b);
}

/// Metadata is empty where it says nothing.
pub proof fn empty_metadata_says_nothing(m: IssueMetadata, r: bool, usual: IssueMetadata)
    requires
        call_ensures(IssueMetadata::is_empty, (&m,), r),
        call_ensures(IssueMetadata::default, (), usual),
    ensures
        r <==> !says_something(m),
        !says_something(usual),
{
    lemma_says(m);
    lemma_says(usual);
}

} // verus!
