//! Records as JSON text, and what reading a written record gives back.

use crate::json;
use crate::pattern;
use crate::text;
use crate::json::json_write_string;
use vstd::prelude::*;
use vstd::string::*;

verus! {

/// One member of a record: a key, and the text of its value.
pub type Member = (Seq<char>, Seq<char>);

/// A member as JSON text.
pub open spec fn member_text(m: Member) -> Seq<char> {
    json::json_string_text(m.0) + seq![':'] + m.1
}

/// Members as JSON text, separated by commas.
pub open spec fn record_body(ms: Seq<Member>) -> Seq<char>
    decreases ms.len(),
{
    if ms.len() == 0 {
        seq![]
    } else if ms.len() == 1 {
        member_text(ms[0])
    } else {
        record_body(ms.drop_last()) + seq![','] + member_text(ms.last())
    }
}

/// A JSON object with the given members.
pub open spec fn record_text(ms: Seq<Member>) -> Seq<char> {
    seq!['{'] + record_body(ms) + seq!['}']
}

/// The key and the value of a member are read back where they were written.
pub open spec fn reads_back(m: Member) -> bool {
    &&& forall|rest: Seq<char>|
        json::json_string_prefix(#[trigger] (json::json_string_text(m.0) + rest)) == Some((m.0, rest))
    &&& forall|rest: Seq<char>|
        rest.len() > 0 && (rest[0] == ',' || rest[0] == '}') ==> json::json_value_prefix(
            #[trigger] (m.1 + rest),
        ) == Some((m.1, rest))
}

/// Appends a member to the text of a record.
pub fn with_member(body: String, name: &str, value: &str, ms: Ghost<Seq<Member>>) -> (r: String)
    requires
        body@ == record_body(ms@),
        body@.len() == 0 <==> ms@.len() == 0,
        forall|rest: Seq<char>|
            rest.len() > 0 && (rest[0] == ',' || rest[0] == '}') ==> json::json_value_prefix(
                #[trigger] (value@ + rest),
            ) == Some((value@, rest)),
    ensures
        r@ == record_body(ms@.push((name@, value@))),
        r@.len() > 0,
        reads_back((name@, value@)),
{
    let mut out = body;
    let key = json_write_string(name);
    let ghost m = (name@, value@);
    let ghost more = ms@.push(m);
    assert(more.drop_last() =~= ms@);
    if out.as_str().is_empty() {
        assert(more =~= seq![m]);
        out = key;
        out.push(':');
        out.append(value);
        assert(out@ =~= member_text(m));
    } else {
        let ghost before = out@;
        out.push(',');
        out.append(key.as_str());
        out.push(':');
        out.append(value);
        assert(out@ =~= before + seq![','] + member_text(m));
    }
    out
}

/// A record of more than one member is its first member, a comma and the rest.
proof fn lemma_record_front(ms: Seq<Member>)
    requires
        ms.len() > 1,
    ensures
        record_body(ms) == member_text(ms[0]) + seq![','] + record_body(ms.drop_first()),
    decreases ms.len(),
{
    let tail = ms.drop_first();
    if ms.len() == 2 {
        assert(record_body(ms.drop_last()) == member_text(ms[0]));
        assert(record_body(tail) == member_text(ms.last()));
    } else {
        lemma_record_front(ms.drop_last());
        assert(ms.drop_last().drop_first() =~= tail.drop_last());
        assert(record_body(ms) =~= member_text(ms[0]) + seq![','] + record_body(tail));
    }
}

proof fn lemma_no_space(s: Seq<char>, c: char)
    requires
        s.len() > 0,
        s[0] == c,
        c == ':' || c == ',' || c == '{' || c == '}' || c == '"',
    ensures
        json::after_space(s) == s,
        json::after_token(s, c) == Some(s.drop_first()),
        forall|d: char| d != c ==> #[trigger] json::after_token(s, d) is None,
{
}

/// Reading the members of a written record gives them back.
proof fn lemma_members_from(ms: Seq<Member>)
    requires
        ms.len() > 0,
        forall|i: int| 0 <= i < ms.len() ==> reads_back(#[trigger] ms[i]),
    ensures
        json::members_from(record_body(ms) + seq!['}']) == Some(ms),
    decreases ms.len(),
{
    let s = record_body(ms) + seq!['}'];
    let m = ms[0];
    assert(reads_back(m));
    if ms.len() == 1 {
        let end = seq!['}'];
        let b = m.1 + end;
        let a = seq![':'] + b;
        assert(s =~= json::json_string_text(m.0) + a);
        lemma_no_space(a, ':');
        assert(a.drop_first() =~= b);
        lemma_no_space(end, '}');
        assert(end.drop_first() =~= seq![]);
        assert(json::is_blank(seq![]));
        assert(seq![m] =~= ms);
    } else {
        let tail = ms.drop_first();
        lemma_record_front(ms);
        let d = record_body(tail) + seq!['}'];
        let c = seq![','] + d;
        let b = m.1 + c;
        let a = seq![':'] + b;
        assert(s =~= json::json_string_text(m.0) + a);
        lemma_no_space(a, ':');
        assert(a.drop_first() =~= b);
        lemma_no_space(c, ',');
        assert(c.drop_first() =~= d);
        assert forall|i: int| 0 <= i < tail.len() implies reads_back(#[trigger] tail[i]) by {
            assert(tail[i] == ms[i + 1]);
        }
        lemma_members_from(tail);
        assert(seq![m] + tail =~= ms);
    }
}

/// Reading a written record gives its members back.
pub proof fn lemma_record_read_back(ms: Seq<Member>)
    requires
        forall|i: int| 0 <= i < ms.len() ==> reads_back(#[trigger] ms[i]),
    ensures
        json::object_members(record_text(ms)) == Some(ms),
        json::after_token(record_text(ms), '[') is None,
{
    let s = record_text(ms);
    let t = record_body(ms) + seq!['}'];
    assert(s =~= seq!['{'] + t);
    lemma_no_space(s, '{');
    assert(s.drop_first() =~= t);
    if ms.len() == 0 {
        assert(t =~= seq!['}']);
        lemma_no_space(t, '}');
        assert(t.drop_first() =~= seq![]);
        assert(json::is_blank(seq![]));
        assert(ms =~= seq![]);
    } else {
        lemma_members_from(ms);
        if ms.len() > 1 {
            lemma_record_front(ms);
        }
        assert(t[0] == '"');
        lemma_no_space(t, '"');
    }
}

/// A text in which the end of a comment does not stand.
pub open spec fn no_close(s: Seq<char>) -> bool {
    forall|i: int| 0 <= i <= s.len() ==> !pattern::comment_close().is_prefix_of(#[trigger] s.skip(i))
}

proof fn lemma_close()
    ensures
        pattern::comment_close() == seq![' ', '-', '-', '>'],
{
    reveal_strlit(" -->");
    assert(pattern::comment_close() =~= seq![' ', '-', '-', '>']);
}

/// The four characters of the end of a comment stand at `i`.
pub proof fn lemma_close_at(s: Seq<char>, i: int)
    requires
        0 <= i <= s.len(),
    ensures
        pattern::comment_close().is_prefix_of(s.skip(i)) <==> (i + 4 <= s.len() && s[i] == ' ' && s[i + 1]
            == '-' && s[i + 2] == '-' && s[i + 3] == '>'),
{
    lemma_close();
    let t = s.skip(i);
    if i + 4 <= s.len() {
        assert(t[0] == s[i] && t[1] == s[i + 1] && t[2] == s[i + 2] && t[3] == s[i + 3]);
        if pattern::comment_close().is_prefix_of(t) {
            let u = t.subrange(0, 4);
            assert(u == pattern::comment_close());
            assert(u[0] == t[0] && u[1] == t[1] && u[2] == t[2] && u[3] == t[3]);
        } else if s[i] == ' ' && s[i + 1] == '-' && s[i + 2] == '-' && s[i + 3] == '>' {
            assert(t.subrange(0, 4) =~= pattern::comment_close());
        }
    }
}

/// Joining two texts makes no end of a comment where one of the characters that meet does
/// not belong there.
pub proof fn lemma_no_close_join(a: Seq<char>, b: Seq<char>)
    requires
        no_close(a),
        no_close(b),
        a.len() == 0 || b.len() == 0 || (a.last() != ' ' && a.last() != '-') || (b[0] != '-'
            && b[0] != '>'),
    ensures
        no_close(a + b),
{
    let s = a + b;
    assert forall|i: int| 0 <= i <= s.len() implies !pattern::comment_close().is_prefix_of(
        #[trigger] s.skip(i),
    ) by {
        lemma_close_at(s, i);
        if i <= a.len() {
            lemma_close_at(a, i);
            assert(!pattern::comment_close().is_prefix_of(a.skip(i)));
        }
        if i >= a.len() {
            lemma_close_at(b, i - a.len());
            assert(!pattern::comment_close().is_prefix_of(b.skip(i - a.len())));
        }
    }
}

/// A text without spaces holds no end of a comment.
pub proof fn lemma_no_close_spaceless(s: Seq<char>)
    requires
        !s.contains(' '),
    ensures
        no_close(s),
{
    assert forall|i: int| 0 <= i <= s.len() implies !pattern::comment_close().is_prefix_of(
        #[trigger] s.skip(i),
    ) by {
        lemma_close_at(s, i);
        if i < s.len() {
            assert(s.contains(s[i]));
        }
    }
}

/// What an escape sequence can end in and be made of.
proof fn lemma_json_char(c: char)
    ensures
        json::json_char(c).len() > 0,
        json::json_char(c) != seq![c] ==> {
            let e = json::json_char(c);
            &&& e[0] == '\\'
            &&& e.last() != ' ' && e.last() != '-' && e.last() != '>'
            &&& !e.contains(' ') && !e.contains('\n')
        },
        c == '\n' ==> json::json_char(c) != seq![c],
{
    let e = json::json_char(c);
    if c == '\n' {
        assert(e.len() == 2);
        assert(seq![c].len() == 1);
    }
    if (c as u32) < 32 {
        assert(forall|i: int| 0 <= i < e.len() ==> #[trigger] e[i] != ' ' && e[i] != '-' && e[i]
            != '>' && e[i] != '\n');
    }
}

/// The characters of a string as JSON hold no line feed.
proof fn lemma_json_chars_contains(s: Seq<char>)
    ensures
        !json::json_chars(s).contains('\n'),
    decreases s.len(),
{
    if s.len() > 0 {
        let init = s.drop_last();
        lemma_json_chars_contains(init);
        lemma_json_char(s.last());
        let a = json::json_chars(init);
        let e = json::json_char(s.last());
        let t = json::json_chars(s);
        if t.contains('\n') {
            let i = choose|i: int| 0 <= i < t.len() && t[i] == '\n';
            if i < a.len() {
                assert(a.contains(a[i]));
            } else {
                assert(e.contains(e[i - a.len()]));
            }
        }
    }
}

/// Where JSON characters end in a dash or a space, so does the string.
proof fn lemma_json_chars_last(s: Seq<char>)
    requires
        json::json_chars(s).len() > 0,
        json::json_chars(s).last() == '-' || json::json_chars(s).last() == ' ',
    ensures
        s.len() > 0,
        s.last() == json::json_chars(s).last(),
        json::json_chars(s).drop_last() == json::json_chars(s.drop_last()),
{
    lemma_json_char(s.last());
    let e = json::json_char(s.last());
    assert(json::json_chars(s).last() == e.last());
    assert(json::json_chars(s).drop_last() =~= json::json_chars(s.drop_last()));
}

/// A string without the end of a comment has none as JSON either.
proof fn lemma_json_chars_no_close(s: Seq<char>)
    requires
        no_close(s),
    ensures
        no_close(json::json_chars(s)),
    decreases s.len(),
{
    if s.len() == 0 {
        lemma_no_close_spaceless(json::json_chars(s));
    } else {
        let init = s.drop_last();
        let c = s.last();
        let a = json::json_chars(init);
        assert forall|i: int| 0 <= i <= init.len() implies !pattern::comment_close().is_prefix_of(
            #[trigger] init.skip(i),
        ) by {
            lemma_close_at(init, i);
            lemma_close_at(s, i);
            assert(!pattern::comment_close().is_prefix_of(s.skip(i)));
        }
        lemma_json_chars_no_close(init);
        lemma_json_char(c);
        let e = json::json_char(c);
        if e != seq![c] {
            lemma_no_close_spaceless(e);
            lemma_no_close_join(a, e);
        } else {
            let t = json::json_chars(s);
            assert(t == a + seq![c]);
            assert forall|i: int| 0 <= i <= t.len() implies !pattern::comment_close().is_prefix_of(
                #[trigger] t.skip(i),
            ) by {
                lemma_close_at(t, i);
                if i + 4 < t.len() || i > a.len() {
                    if i <= a.len() {
                        lemma_close_at(a, i);
                        assert(!pattern::comment_close().is_prefix_of(a.skip(i)));
                    }
                } else if pattern::comment_close().is_prefix_of(t.skip(i)) {
                    assert(c == '>');
                    let n = a.len() as int;
                    assert(a[n - 1] == '-' && a[n - 2] == '-' && a[n - 3] == ' ');
                    lemma_json_chars_last(init);
                    let a2 = a.drop_last();
                    lemma_json_chars_last(init.drop_last());
                    let a3 = a2.drop_last();
                    lemma_json_chars_last(init.drop_last().drop_last());
                    let k = s.len() as int;
                    assert(s[k - 1] == '>' && s[k - 2] == '-' && s[k - 3] == '-' && s[k - 4]
                        == ' ');
                    lemma_close_at(s, k - 4);
                    assert(!pattern::comment_close().is_prefix_of(s.skip(k - 4)));
                }
            }
        }
    }
}

/// What a text that is put into a comment must be free of, and what it never holds.
pub open spec fn comment_safe(s: Seq<char>) -> bool {
    no_close(s) && !s.contains('\n')
}

/// A string that does not hold the end of a comment is safe as JSON.
pub proof fn lemma_string_safe(s: Seq<char>)
    requires
        !text::holds_text(s, pattern::comment_close()),
    ensures
        comment_safe(json::json_string_text(s)),
{
    assert(no_close(s));
    lemma_json_chars_no_close(s);
    lemma_json_chars_contains(s);
    let q = seq!['"'];
    let a = json::json_chars(s);
    lemma_no_close_spaceless(q);
    lemma_no_close_join(q, a);
    lemma_no_close_join(q + a, q);
    lemma_contains_join(q, a, '\n');
    lemma_contains_join(q + a, q, '\n');
}

/// A character of a joined text is a character of one of its parts.
pub proof fn lemma_contains_join(a: Seq<char>, b: Seq<char>, c: char)
    ensures
        (a + b).contains(c) == (a.contains(c) || b.contains(c)),
{
    let s = a + b;
    if s.contains(c) {
        let i = choose|i: int| 0 <= i < s.len() && s[i] == c;
        if i < a.len() {
            assert(a[i] == c);
        } else {
            assert(b[i - a.len()] == c);
        }
    }
    if a.contains(c) {
        let i = choose|i: int| 0 <= i < a.len() && a[i] == c;
        assert(s[i] == c);
    }
    if b.contains(c) {
        let i = choose|i: int| 0 <= i < b.len() && b[i] == c;
        assert(s[a.len() + i] == c);
    }
}

/// Joining safe texts gives a safe text where one of the characters that meet does not belong
/// to the end of a comment.
pub proof fn lemma_safe_join(a: Seq<char>, b: Seq<char>)
    requires
        comment_safe(a),
        comment_safe(b),
        a.len() == 0 || b.len() == 0 || (a.last() != ' ' && a.last() != '-') || (b[0] != '-'
            && b[0] != '>'),
    ensures
        comment_safe(a + b),
{
    lemma_no_close_join(a, b);
    lemma_contains_join(a, b, '\n');
}

/// A single character is safe, unless it is a line feed or a space.
proof fn lemma_safe_char(c: char)
    requires
        c != ' ',
        c != '\n',
    ensures
        comment_safe(seq![c]),
{
    lemma_no_close_spaceless(seq![c]);
}

/// A list of strings, none of which holds the end of a comment, is safe as JSON.
pub proof fn lemma_list_safe(v: Seq<Seq<char>>)
    requires
        forall|i: int| 0 <= i < v.len() ==> !text::holds_text(#[trigger] v[i], pattern::comment_close()),
    ensures
        comment_safe(json::json_list_text(v)),
{
    let parts = v.map_values(|s: Seq<char>| json::json_string_text(s));
    lemma_joined_safe(v);
    let body = json::comma_joined(parts);
    let open = seq!['['];
    let end = seq![']'];
    lemma_safe_char('[');
    lemma_safe_char(']');
    lemma_safe_join(open, body);
    lemma_safe_join(open + body, end);
}

proof fn lemma_joined_safe(v: Seq<Seq<char>>)
    requires
        forall|i: int| 0 <= i < v.len() ==> !text::holds_text(#[trigger] v[i], pattern::comment_close()),
    ensures
        comment_safe(json::comma_joined(v.map_values(|s: Seq<char>| json::json_string_text(s)))),
    decreases v.len(),
{
    let f = |s: Seq<char>| json::json_string_text(s);
    let parts = v.map_values(f);
    let joined = json::comma_joined(parts);
    if v.len() == 0 {
        lemma_no_close_spaceless(joined);
    } else {
        let last = v.last();
        assert(v[v.len() - 1] == last);
        lemma_string_safe(last);
        if v.len() == 1 {
            assert(joined == json::json_string_text(v[0]));
        } else {
            let init = v.drop_last();
            assert forall|i: int| 0 <= i < init.len() implies !text::holds_text(
                #[trigger] init[i],
                pattern::comment_close(),
            ) by {
                assert(init[i] == v[i]);
            }
            lemma_joined_safe(init);
            let a = json::comma_joined(init.map_values(f));
            let comma = seq![','];
            assert(parts.drop_last() =~= init.map_values(f));
            assert(joined == a + comma + json::json_string_text(last));
            lemma_safe_char(',');
            lemma_safe_join(a, comma);
            lemma_safe_join(a + comma, json::json_string_text(last));
        }
    }
}

/// A number is safe.
pub proof fn lemma_decimal_safe(n: nat)
    ensures
        comment_safe(text::decimal_text(n)),
        !text::decimal_text(n).contains(' '),
        !text::decimal_text(n).contains('\n'),
    decreases n,
{
    if n >= 10 {
        lemma_decimal_safe(n / 10);
        let a = text::decimal_text(n / 10);
        let b = seq![(0x30 + n % 10) as char];
        assert(text::decimal_text(n) =~= a + b);
        lemma_contains_join(a, b, ' ');
        lemma_contains_join(a, b, '\n');
    }
    lemma_no_close_spaceless(text::decimal_text(n));
}

/// The key of a member is safe if it has no space.
proof fn lemma_key_safe(name: Seq<char>)
    requires
        !name.contains(' '),
    ensures
        comment_safe(json::json_string_text(name)),
{
    lemma_no_close_spaceless(name);
    assert(!text::holds_text(name, pattern::comment_close()));
    lemma_string_safe(name);
}

/// A record whose values are safe, and whose keys have no space, is safe.
pub proof fn lemma_record_safe(ms: Seq<Member>)
    requires
        forall|i: int|
            0 <= i < ms.len() ==> comment_safe((#[trigger] ms[i]).1) && !ms[i].0.contains(' '),
    ensures
        comment_safe(record_body(ms)),
    decreases ms.len(),
{
    if ms.len() == 0 {
        lemma_no_close_spaceless(record_body(ms));
    } else {
        let m = ms.last();
        assert(ms[ms.len() - 1] == m);
        let key = json::json_string_text(m.0);
        let colon = seq![':'];
        lemma_key_safe(m.0);
        lemma_safe_char(':');
        lemma_safe_char(',');
        lemma_safe_join(key, colon);
        lemma_safe_join(key + colon, m.1);
        if ms.len() > 1 {
            let init = ms.drop_last();
            assert forall|i: int| 0 <= i < init.len() implies comment_safe(
                (#[trigger] init[i]).1,
            ) && !init[i].0.contains(' ') by {
                assert(init[i] == ms[i]);
            }
            lemma_record_safe(init);
            let a = record_body(init);
            let comma = seq![','];
            lemma_safe_join(a, comma);
            lemma_safe_join(a + comma, member_text(m));
        }
    }
}

} // verus!
