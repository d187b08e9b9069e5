//! JSON records.
//!
//! A record is read member by member, so that a repeated member is seen. The keys and the
//! values themselves are read and written by the `serde_json` crate.

use crate::pattern;
use crate::text;
use crate::text::{chars_of, string_of};
use vstd::prelude::*;
use vstd::string::*;

verus! {

/// The two lower case hexadecimal digits of a number below 32, as characters.
pub open spec fn hex_pair(n: int) -> Seq<char> {
    let low = n % 16;
    seq![
        if n < 16 {
            '0'
        } else {
            '1'
        },
        if low < 10 {
            (0x30 + low) as char
        } else {
            (0x57 + low) as char
        },
    ]
}

/// How one character is written inside a JSON string.
pub open spec fn json_char(c: char) -> Seq<char> {
    if c == '"' {
        seq!['\\', '"']
    } else if c == '\\' {
        seq!['\\', '\\']
    } else if c == '\n' {
        seq!['\\', 'n']
    } else if c == '\r' {
        seq!['\\', 'r']
    } else if c == '\t' {
        seq!['\\', 't']
    } else if c as u32 == 8 {
        seq!['\\', 'b']
    } else if c as u32 == 12 {
        seq!['\\', 'f']
    } else if (c as u32) < 32 {
        seq!['\\', 'u', '0', '0'] + hex_pair(c as int)
    } else {
        seq![c]
    }
}

/// The characters of a string as they stand between the quotes.
pub open spec fn json_chars(s: Seq<char>) -> Seq<char>
    decreases s.len(),
{
    if s.len() == 0 {
        seq![]
    } else {
        json_chars(s.drop_last()) + json_char(s.last())
    }
}

/// A string as JSON text.
pub open spec fn json_string_text(s: Seq<char>) -> Seq<char> {
    seq!['"'] + json_chars(s) + seq!['"']
}

/// The texts joined by commas.
pub open spec fn comma_joined(v: Seq<Seq<char>>) -> Seq<char>
    decreases v.len(),
{
    if v.len() == 0 {
        seq![]
    } else if v.len() == 1 {
        v[0]
    } else {
        comma_joined(v.drop_last()) + seq![','] + v.last()
    }
}

/// A list of strings as JSON text.
pub open spec fn json_list_text(v: Seq<Seq<char>>) -> Seq<char> {
    seq!['['] + comma_joined(v.map_values(|s: Seq<char>| json_string_text(s))) + seq![']']
}

/// What `serde_json::StreamDeserializer` reads as a string at the head of a text: the string,
/// and the text after it.
pub uninterp spec fn json_string_prefix(text: Seq<char>) -> Option<(Seq<char>, Seq<char>)>;

/// What `serde_json::StreamDeserializer` reads as a raw value at the head of a text: the text
/// of the value, and the text after it.
pub uninterp spec fn json_value_prefix(text: Seq<char>) -> Option<(Seq<char>, Seq<char>)>;

/// What `serde_json::from_str` makes of a text as a list of strings.
pub uninterp spec fn json_strings(text: Seq<char>) -> Option<Seq<Seq<char>>>;

/// What `serde_json::from_str` makes of a text as a string that may be null.
pub uninterp spec fn json_optional_string(text: Seq<char>) -> Option<Option<Seq<char>>>;

/// What `serde_json::from_str` makes of a text as a byte that may be null.
pub uninterp spec fn json_optional_u8(text: Seq<char>) -> Option<Option<u8>>;

/// The message of the error that `serde_json::from_str` reports for a text that is no JSON
/// value; none where it is one.
pub uninterp spec fn json_fault(text: Seq<char>) -> Option<Seq<char>>;

/// The characters of both strings of a pair.
pub open spec fn pair_texts(r: Option<(String, String)>) -> Option<(Seq<char>, Seq<char>)> {
    match r {
        Some((a, b)) => Some((a@, b@)),
        None => None,
    }
}

/// The characters of an optional string.
pub open spec fn opt_text(s: Option<String>) -> Option<Seq<char>> {
    match s {
        Some(s) => Some(s@),
        None => None,
    }
}

/// `serde_json::to_string` on a string: the string as JSON text. Reading that text back, at
/// the head of any text or by itself, gives the string.
#[verifier::external_body]
pub(crate) fn json_write_string(s: &str) -> (r: String)
    ensures
        r@ == json_string_text(s@),
        forall|rest: Seq<char>|
            json_string_prefix(#[trigger] (r@ + rest)) == Some((s@, rest)),
        forall|rest: Seq<char>| json_value_prefix(#[trigger] (r@ + rest)) == Some((r@, rest)),
        json_optional_string(r@) == Some(Some(s@)),
{
    serde_json::to_string(s).unwrap()
}

/// `serde_json::to_string` on a list of strings: the list as JSON text. Reading that text
/// back, at the head of any text or by itself, gives the list.
#[verifier::external_body]
pub(crate) fn json_write_strings(v: &Vec<String>) -> (r: String)
    ensures
        r@ == json_list_text(pattern::texts(v@)),
        forall|rest: Seq<char>| json_value_prefix(#[trigger] (r@ + rest)) == Some((r@, rest)),
        json_strings(r@) == Some(pattern::texts(v@)),
{
    serde_json::to_string(v).unwrap()
}

/// `serde_json::to_string` on a byte: its decimal digits. Reading that text back by itself,
/// or before a comma or a closing brace, gives the number.
#[verifier::external_body]
pub(crate) fn json_write_u8(n: u8) -> (r: String)
    ensures
        r@ == text::decimal_text(n as nat),
        forall|rest: Seq<char>|
            rest.len() > 0 && (rest[0] == ',' || rest[0] == '}') ==> json_value_prefix(
                #[trigger] (r@ + rest),
            ) == Some((r@, rest)),
        json_optional_u8(r@) == Some(Some(n)),
{
    serde_json::to_string(&n).unwrap()
}

/// `serde_json::StreamDeserializer::next` for a string: the string that stands at the head of
/// `text`, and the text after it, which is shorter.
#[verifier::external_body]
pub(crate) fn json_read_string(text: &str) -> (r: Option<(String, String)>)
    ensures
        pair_texts(r) == json_string_prefix(text@),
        r matches Some((s, rest)) ==> rest@.len() < text@.len(),
{
    let mut values = serde_json::Deserializer::from_str(text).into_iter::<String>();
    let value = values.next()?.ok()?;
    Some((value, text[values.byte_offset()..].to_string()))
}

/// `serde_json::StreamDeserializer::next` for a raw value: the text of the JSON value that
/// stands at the head of `text`, and the text after it, which is shorter.
#[verifier::external_body]
pub(crate) fn json_read_value(text: &str) -> (r: Option<(String, String)>)
    ensures
        pair_texts(r) == json_value_prefix(text@),
        r matches Some((s, rest)) ==> rest@.len() < text@.len(),
{
    let mut values = serde_json::Deserializer::from_str(text).into_iter::<Box<serde_json::value::RawValue>>();
    let value = values.next()?.ok()?;
    Some((value.get().to_string(), text[values.byte_offset()..].to_string()))
}

/// `serde_json::from_str` for a list of strings.
#[verifier::external_body]
pub(crate) fn json_read_strings(text: &str) -> (r: Option<Vec<String>>)
    ensures
        match r {
            Some(v) => json_strings(text@) == Some(pattern::texts(v@)),
            None => json_strings(text@) is None,
        },
{
    serde_json::from_str::<Vec<String>>(text).ok()
}

/// `serde_json::from_str` for a string that may be null.
#[verifier::external_body]
pub(crate) fn json_read_optional_string(text: &str) -> (r: Option<Option<String>>)
    ensures
        match r {
            Some(s) => json_optional_string(text@) == Some(opt_text(s)),
            None => json_optional_string(text@) is None,
        },
{
    serde_json::from_str::<Option<String>>(text).ok()
}

/// `serde_json::from_str` for a byte that may be null.
#[verifier::external_body]
pub(crate) fn json_read_optional_u8(text: &str) -> (r: Option<Option<u8>>)
    ensures
        r == json_optional_u8(text@),
{
    serde_json::from_str::<Option<u8>>(text).ok()
}

/// `serde_json::from_str` for any value: the message of its error, or none where the text is a
/// JSON value. The value itself is not kept.
#[verifier::external_body]
pub(crate) fn json_find_fault(text: &str) -> (r: Option<String>)
    ensures
        opt_text(r) == json_fault(text@),
{
    serde_json::from_str::<serde_json::Value>(text).err().map(|e| e.to_string())
}

/// The characters that JSON lets stand between tokens.
pub open spec fn json_space(c: char) -> bool {
    c == ' ' || c == '\n' || c == '\t' || c == '\r'
}

/// `s` without the space at its head.
pub open spec fn after_space(s: Seq<char>) -> Seq<char>
    decreases s.len(),
{
    if s.len() > 0 && json_space(s[0]) {
        after_space(s.drop_first())
    } else {
        s
    }
}

/// What follows the token `c` at the head of `s`, if it stands there.
pub open spec fn after_token(s: Seq<char>, c: char) -> Option<Seq<char>> {
    let t = after_space(s);
    if t.len() > 0 && t[0] == c {
        Some(t.drop_first())
    } else {
        None
    }
}

/// Nothing but space is left.
pub open spec fn is_blank(s: Seq<char>) -> bool {
    after_space(s).len() == 0
}

/// The members from the key at the head of `s` to the end of the object, each a key and the
/// text of its value. Every member leaves a shorter text.
pub open spec fn members_from(s: Seq<char>) -> Option<Seq<(Seq<char>, Seq<char>)>>
    decreases s.len(),
{
    match json_string_prefix(s) {
        None => None,
        Some((key, a)) => match after_token(a, ':') {
            None => None,
            Some(b) => match json_value_prefix(b) {
                None => None,
                Some((value, c)) => match after_token(c, ',') {
                    Some(d) => if d.len() < s.len() {
                        match members_from(d) {
                            Some(more) => Some(seq![(key, value)] + more),
                            None => None,
                        }
                    } else {
                        None
                    },
                    None => match after_token(c, '}') {
                        Some(d) => if is_blank(d) {
                            Some(seq![(key, value)])
                        } else {
                            None
                        },
                        None => None,
                    },
                },
            },
        },
    }
}

/// The members of the JSON object that `s` is, in order; `None` if it is no object.
pub open spec fn object_members(s: Seq<char>) -> Option<Seq<(Seq<char>, Seq<char>)>> {
    match after_token(s, '{') {
        None => None,
        Some(t) => match after_token(t, '}') {
            Some(u) => if is_blank(u) {
                Some(seq![])
            } else {
                None
            },
            None => members_from(t),
        },
    }
}

/// The values from the head of `s` to the end of the array, as texts. Every value leaves a
/// shorter text.
pub open spec fn elements_from(s: Seq<char>) -> Option<Seq<Seq<char>>>
    decreases s.len(),
{
    match json_value_prefix(s) {
        None => None,
        Some((value, c)) => match after_token(c, ',') {
            Some(d) => if d.len() < s.len() {
                match elements_from(d) {
                    Some(more) => Some(seq![value] + more),
                    None => None,
                }
            } else {
                None
            },
            None => match after_token(c, ']') {
                Some(d) => if is_blank(d) {
                    Some(seq![value])
                } else {
                    None
                },
                None => None,
            },
        },
    }
}

/// The texts of the elements of the JSON array that `s` is; `None` if it is no array.
pub open spec fn array_elements(s: Seq<char>) -> Option<Seq<Seq<char>>> {
    match after_token(s, '[') {
        None => None,
        Some(t) => match after_token(t, ']') {
            Some(u) => if is_blank(u) {
                Some(seq![])
            } else {
                None
            },
            None => elements_from(t),
        },
    }
}

/// The keys and values of members, as characters.
pub open spec fn member_texts(v: Seq<(String, String)>) -> Seq<(Seq<char>, Seq<char>)> {
    v.map_values(|m: (String, String)| (m.0@, m.1@))
}

proof fn lemma_after_space(s: Seq<char>, i: int)
    requires
        0 <= i <= s.len(),
        forall|j: int| 0 <= j < i ==> json_space(#[trigger] s[j]),
    ensures
        after_space(s) == after_space(s.skip(i)),
        after_space(s).len() <= s.len(),
    decreases i,
{
    if i > 0 {
        lemma_after_space(s.drop_first(), i - 1);
        assert(s.drop_first().skip(i - 1) =~= s.skip(i));
    } else {
        assert(s.skip(0) =~= s);
        lemma_after_space_len(s);
    }
}

proof fn lemma_after_space_len(s: Seq<char>)
    ensures
        after_space(s).len() <= s.len(),
    decreases s.len(),
{
    if s.len() > 0 {
        lemma_after_space_len(s.drop_first());
    }
}

/// The position of the first character of `v` that is no space.
fn space_end(v: &Vec<char>) -> (i: usize)
    ensures
        i <= v@.len(),
        after_space(v@) == v@.skip(i as int),
{
    let mut i: usize = 0;
    while i < v.len() && (v[i] == ' ' || v[i] == '\n' || v[i] == '\t' || v[i] == '\r')
        invariant
            i <= v@.len(),
            forall|j: int| 0 <= j < i ==> json_space(#[trigger] v@[j]),
        decreases v@.len() - i,
    {
        i = i + 1;
    }
    proof {
        lemma_after_space(v@, i as int);
    }
    i
}

/// What follows the token `c` at the head of `s`, if it stands there.
fn take_token(s: &str, c: char) -> (r: Option<String>)
    ensures
        opt_text(r) == after_token(s@, c),
        r matches Some(t) ==> t@.len() < s@.len(),
{
    let v = chars_of(s);
    let i = space_end(&v);
    if i < v.len() && v[i] == c {
        let rest = string_of(&v, i + 1, v.len());
        assert(rest@ =~= after_space(s@).drop_first());
        Some(rest)
    } else {
        None
    }
}

/// Whether nothing but space is left.
fn only_space(s: &str) -> (r: bool)
    ensures
        r == is_blank(s@),
{
    let v = chars_of(s);
    let i = space_end(&v);
    i == v.len()
}

/// Reads a JSON object: its members in order, each a key and the text of its value.
pub fn read_members(text: &str) -> (r: Option<Vec<(String, String)>>)
    ensures
        match r {
            Some(v) => object_members(text@) == Some(member_texts(v@)),
            None => object_members(text@) is None,
        },
{
    let mut out: Vec<(String, String)> = Vec::new();
    let opened = match take_token(text, '{') {
        Some(t) => t,
        None => {
            return None;
        },
    };
    if let Some(t) = take_token(opened.as_str(), '}') {
        if only_space(t.as_str()) {
            assert(member_texts(out@) =~= seq![]);
            return Some(out);
        }
        return None;
    }
    let mut rest = opened;
    let ghost whole = members_from(rest@);
    assert(object_members(text@) == whole);
    loop
        invariant
            object_members(text@) == whole,
            whole == (match members_from(rest@) {
                Some(more) => Some(member_texts(out@) + more),
                None => None,
            }),
        decreases rest@.len(),
    {
        let (key, a) = match json_read_string(rest.as_str()) {
            Some(p) => p,
            None => {
                return None;
            },
        };
        let b = match take_token(a.as_str(), ':') {
            Some(b) => b,
            None => {
                return None;
            },
        };
        let (value, c) = match json_read_value(b.as_str()) {
            Some(p) => p,
            None => {
                return None;
            },
        };
        let ghost before = member_texts(out@);
        let ghost one = (key@, value@);
        out.push((key, value));
        assert(member_texts(out@) =~= before.push(one));
        match take_token(c.as_str(), ',') {
            Some(d) => {
                proof {
                    if let Some(more) = members_from(d@) {
                        assert(before + (seq![one] + more) =~= before.push(one) + more);
                    }
                }
                rest = d;
            },
            None => {
                if let Some(d) = take_token(c.as_str(), '}') {
                    if only_space(d.as_str()) {
                        assert(before + seq![one] =~= before.push(one));
                        return Some(out);
                    }
                }
                return None;
            },
        }
    }
}

/// Reads a JSON array: the texts of its elements.
pub fn read_elements(text: &str) -> (r: Option<Vec<String>>)
    ensures
        match r {
            Some(v) => array_elements(text@) == Some(pattern::texts(v@)),
            None => array_elements(text@) is None,
        },
{
    let mut out: Vec<String> = Vec::new();
    let opened = match take_token(text, '[') {
        Some(t) => t,
        None => {
            return None;
        },
    };
    if let Some(t) = take_token(opened.as_str(), ']') {
        if only_space(t.as_str()) {
            assert(pattern::texts(out@) =~= seq![]);
            return Some(out);
        }
        return None;
    }
    let mut rest = opened;
    let ghost whole = elements_from(rest@);
    assert(array_elements(text@) == whole);
    loop
        invariant
            array_elements(text@) == whole,
            whole == (match elements_from(rest@) {
                Some(more) => Some(pattern::texts(out@) + more),
                None => None,
            }),
        decreases rest@.len(),
    {
        let (value, c) = match json_read_value(rest.as_str()) {
            Some(p) => p,
            None => {
                return None;
            },
        };
        let ghost before = pattern::texts(out@);
        let ghost one = value@;
        out.push(value);
        assert(pattern::texts(out@) =~= before.push(one));
        match take_token(c.as_str(), ',') {
            Some(d) => {
                proof {
                    if let Some(more) = elements_from(d@) {
                        assert(before + (seq![one] + more) =~= before.push(one) + more);
                    }
                }
                rest = d;
            },
            None => {
                if let Some(d) = take_token(c.as_str(), ']') {
                    if only_space(d.as_str()) {
                        assert(before + seq![one] =~= before.push(one));
                        return Some(out);
                    }
                }
                return None;
            },
        }
    }
}

} // verus!
