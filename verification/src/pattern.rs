//! The regular expressions of the library and what they match.
//!
//! What a pattern matches is stated over the characters of the text. The matching itself
//! is done by the `regex` crate.

use crate::unicode;
use vstd::prelude::*;

verus! {

/// A metadata comment in an issue body. Group 1 is the payload.
pub const METADATA_PATTERN: &'static str = "<!-- ralph:metadata:v\\d+ (.*?) -->";

/// An HTTP status in the error output of `gh`. Group 1 is the status.
pub const HTTP_STATUS_PATTERN: &'static str = "HTTP (\\d{3})";

/// A retry hint in a rate limit response. Group 1 is the number of seconds.
pub const RETRY_AFTER_PATTERN: &'static str = "(?i)retry.after[:\\s]+(\\d+)";

/// The fixed text that every metadata comment begins with.
pub open spec fn comment_open() -> Seq<char> {
    "<!-- ralph:metadata:v"@
}

/// The text that ends a metadata comment.
pub open spec fn comment_close() -> Seq<char> {
    " -->"@
}

/// `s` begins with a metadata comment whose payload is `s[p..e]`: the fixed text, one or
/// more decimal digits, a space, a payload on one line, and the first ` -->` after it.
pub open spec fn is_comment(s: Seq<char>, p: int, e: int) -> bool {
    let open = comment_open().len();
    &&& comment_open().is_prefix_of(s)
    &&& open + 1 < p <= e
    &&& e + comment_close().len() <= s.len()
    &&& forall|i: int| open <= i < p - 1 ==> unicode::decimal_digit(#[trigger] s[i])
    &&& s[p - 1] == ' '
    &&& forall|i: int| p <= i < e ==> #[trigger] s[i] != '\n'
    &&& comment_close().is_prefix_of(s.skip(e))
    &&& forall|i: int| p <= i < e ==> !comment_close().is_prefix_of(#[trigger] s.skip(i))
}

/// The bounds of the payload of the metadata comment that `s` begins with, if it does.
#[verifier::opaque]
pub open spec fn comment_at_head(s: Seq<char>) -> Option<(int, int)> {
    if exists|p: int, e: int| is_comment(s, p, e) {
        Some(choose|p: int, e: int| is_comment(s, p, e))
    } else {
        None
    }
}

/// A text begins with the comment whose bounds are found, and with none where none is.
pub proof fn lemma_comment_at_head(s: Seq<char>)
    ensures
        comment_at_head(s) matches Some((p, e)) ==> is_comment(s, p, e),
        comment_at_head(s) is None ==> forall|p: int, e: int| !is_comment(s, p, e),
{
    reveal(comment_at_head);
}

/// The length of a metadata comment whose payload ends at `e`.
pub open spec fn comment_len(e: int) -> int {
    e + comment_close().len()
}

/// The metadata comments of `s` from left to right, none overlapping another.
pub open spec fn comments(s: Seq<char>) -> Seq<Seq<char>>
    decreases s.len(),
{
    if s.len() == 0 {
        seq![]
    } else {
        proof {
            lemma_comment_at_head(s);
        }
        match comment_at_head(s) {
            Some((p, e)) => seq![s.take(comment_len(e))] + comments(s.skip(comment_len(e))),
            None => comments(s.drop_first()),
        }
    }
}

/// `s` with each of its metadata comments replaced by `by`.
pub open spec fn comments_replaced(s: Seq<char>, by: Seq<char>) -> Seq<char>
    decreases s.len(),
{
    if s.len() == 0 {
        seq![]
    } else {
        proof {
            lemma_comment_at_head(s);
        }
        match comment_at_head(s) {
            Some((p, e)) => by + comments_replaced(s.skip(comment_len(e)), by),
            None => seq![s[0]] + comments_replaced(s.drop_first(), by),
        }
    }
}

/// The groups of the first metadata comment of `s`: all of it, and its payload.
pub open spec fn first_comment(s: Seq<char>) -> Option<Seq<Seq<char>>>
    decreases s.len(),
{
    if s.len() == 0 {
        None
    } else {
        match comment_at_head(s) {
            Some((p, e)) => Some(seq![s.take(comment_len(e)), s.subrange(p, e)]),
            None => first_comment(s.drop_first()),
        }
    }
}

/// The number of characters at the head of `s` that satisfy `class`.
pub open spec fn run(s: Seq<char>, class: spec_fn(char) -> bool) -> nat
    decreases s.len(),
{
    if s.len() > 0 && class(s[0]) {
        1 + run(s.drop_first(), class)
    } else {
        0
    }
}

/// The groups of the first `HTTP` status in `s`: all of it, and its three decimal digits.
pub open spec fn first_http_status(s: Seq<char>) -> Option<Seq<Seq<char>>>
    decreases s.len(),
{
    if s.len() == 0 {
        None
    } else if "HTTP "@.is_prefix_of(s) && s.len() >= 8 && unicode::decimal_digit(s[5]) && unicode::decimal_digit(s[6])
        && unicode::decimal_digit(s[7]) {
        Some(seq![s.take(8), s.subrange(5, 8)])
    } else {
        first_http_status(s.drop_first())
    }
}

/// `c` is the ASCII letter `lower` in either case.
pub open spec fn either_case(c: char, lower: char) -> bool {
    c == lower || c as u32 == lower as u32 - 0x20
}

/// `s` begins with `word`, a word in lower case, written in any case.
pub open spec fn begins_with_word(s: Seq<char>, word: Seq<char>) -> bool {
    &&& word.len() <= s.len()
    &&& forall|i: int| 0 <= i < word.len() ==> either_case(#[trigger] s[i], word[i])
}

/// The separators between the words of a retry hint and its number.
pub open spec fn retry_separator(c: char) -> bool {
    c == ':' || unicode::white_space(c)
}

/// The bounds of the number in the retry hint that `s` begins with, if it does: `retry`, any
/// character but a line feed, `after`, one or more separators, one or more decimal digits.
pub open spec fn retry_hint_at_head(s: Seq<char>) -> Option<(int, int)> {
    let from = 11int + run(s.skip(11), |c: char| retry_separator(c));
    let to = from + run(s.skip(from), |c: char| unicode::decimal_digit(c));
    if begins_with_word(s, "retry"@) && s.len() > 11 && s[5] != '\n' && begins_with_word(
        s.skip(6),
        "after"@,
    ) && 11 < from < to {
        Some((from, to))
    } else {
        None
    }
}

/// The groups of the first retry hint in `s`: all of it, and its number.
pub open spec fn first_retry_hint(s: Seq<char>) -> Option<Seq<Seq<char>>>
    decreases s.len(),
{
    if s.len() == 0 {
        None
    } else {
        match retry_hint_at_head(s) {
            Some((from, to)) => Some(seq![s.take(to), s.subrange(from, to)]),
            None => first_retry_hint(s.drop_first()),
        }
    }
}

/// The characters of each string.
pub open spec fn texts(v: Seq<String>) -> Seq<Seq<char>> {
    v.map_values(|s: String| s@)
}

/// `Regex::find_iter`: the texts of the matches of `pattern` in `text`, from left to right
/// and without overlap. Claimed of the metadata pattern alone.
#[verifier::external_body]
pub(crate) fn regex_find_iter(pattern: &str, text: &str) -> (r: Vec<String>)
    requires
        pattern@ == METADATA_PATTERN@,
    ensures
        texts(r@) == comments(text@),
{
    let re = regex::Regex::new(pattern).unwrap();
    re.find_iter(text).map(|m| m.as_str().to_string()).collect()
}

/// `Regex::is_match`: whether `pattern` matches anywhere in `text`. Claimed of the metadata
/// pattern alone.
#[verifier::external_body]
pub(crate) fn regex_is_match(pattern: &str, text: &str) -> (r: bool)
    requires
        pattern@ == METADATA_PATTERN@,
    ensures
        r == (comments(text@).len() > 0),
{
    regex::Regex::new(pattern).unwrap().is_match(text)
}

/// The groups `r`, all of which took part in the match, are `want`.
pub open spec fn captured(r: Option<Vec<Option<String>>>, want: Option<Seq<Seq<char>>>) -> bool {
    match (r, want) {
        (Some(groups), Some(parts)) => {
            &&& groups@.len() == parts.len()
            &&& forall|i: int|
                0 <= i < parts.len() ==> (#[trigger] groups@[i]) is Some && groups@[i]->0@
                    == parts[i]
        },
        (None, None) => true,
        _ => false,
    }
}

/// `Regex::captures`: the groups of the leftmost match of `pattern` in `text`, group 0 being
/// the whole match. Claimed of the three patterns of this module.
#[verifier::external_body]
pub(crate) fn regex_captures(pattern: &str, text: &str) -> (r: Option<Vec<Option<String>>>)
    requires
        pattern@ == METADATA_PATTERN@ || pattern@ == HTTP_STATUS_PATTERN@ || pattern@
            == RETRY_AFTER_PATTERN@,
    ensures
        pattern@ == METADATA_PATTERN@ ==> captured(r, first_comment(text@)),
        pattern@ == HTTP_STATUS_PATTERN@ ==> captured(r, first_http_status(text@)),
        pattern@ == RETRY_AFTER_PATTERN@ ==> captured(r, first_retry_hint(text@)),
{
    let caps = regex::Regex::new(pattern).unwrap().captures(text)?;
    Some(caps.iter().map(|g| g.map(|m| m.as_str().to_string())).collect())
}

/// `Regex::replace_all` with a `regex::NoExpand` replacement: `text` with every match of
/// `pattern` replaced by `by` as it stands, a `$` in it included. Claimed of the metadata
/// pattern alone.
#[verifier::external_body]
pub(crate) fn regex_replace_all(pattern: &str, text: &str, by: &str) -> (r: String)
    requires
        pattern@ == METADATA_PATTERN@,
    ensures
        r@ == comments_replaced(text@, by@),
{
    regex::Regex::new(pattern).unwrap().replace_all(text, regex::NoExpand(by)).to_string()
}

/// The bounds of the comment at the head of a text are unique.
pub proof fn lemma_comment_unique(s: Seq<char>, p: int, e: int)
    requires
        is_comment(s, p, e),
    ensures
        comment_at_head(s) == Some((p, e)),
{
    reveal(comment_at_head);
    let (p2, e2) = choose|p: int, e: int| is_comment(s, p, e);
    assert(is_comment(s, p2, e2));
    crate::unicode::lemma_decimal_digit(' ');
    if p < p2 {
        assert(unicode::decimal_digit(s[p - 1]));
    }
    if p2 < p {
        assert(unicode::decimal_digit(s[p2 - 1]));
    }
    if e < e2 {
        assert(!comment_close().is_prefix_of(s.skip(e)));
    }
    if e2 < e {
        assert(!comment_close().is_prefix_of(s.skip(e2)));
    }
}

/// Whether a text begins with a comment is decided by the characters of the comment.
pub proof fn lemma_comment_local(s: Seq<char>, t: Seq<char>, p: int, e: int)
    requires
        is_comment(s, p, e),
        comment_len(e) <= t.len(),
        t.take(comment_len(e)) == s.take(comment_len(e)),
    ensures
        is_comment(t, p, e),
{
    let n = comment_len(e);
    assert forall|i: int| 0 <= i < n implies #[trigger] t[i] == s[i] by {
        assert(t.take(n)[i] == s.take(n)[i]);
    }
    assert(comment_open().is_prefix_of(t)) by {
        assert(t.subrange(0, comment_open().len() as int) =~= s.subrange(
            0,
            comment_open().len() as int,
        ));
    }
    let k = comment_close().len() as int;
    assert forall|i: int| p <= i <= e implies comment_close().is_prefix_of(t.skip(i))
        == comment_close().is_prefix_of(#[trigger] s.skip(i)) by {
        assert(t.skip(i).subrange(0, k) =~= s.skip(i).subrange(0, k));
    }
    assert(comment_close().is_prefix_of(s.skip(e)));
    assert forall|i: int| p <= i < e implies !comment_close().is_prefix_of(
        #[trigger] t.skip(i),
    ) by {
        assert(!comment_close().is_prefix_of(s.skip(i)));
    }
    assert forall|i: int| comment_open().len() <= i < p - 1 implies unicode::decimal_digit(
        #[trigger] t[i],
    ) by {
        assert(unicode::decimal_digit(s[i]));
    }
    assert forall|i: int| p <= i < e implies #[trigger] t[i] != '\n' by {
        assert(s[i] != '\n');
    }
}

} // verus!
