//! How JSON objects and arrays are taken apart.

use crate::json;
use vstd::prelude::*;

verus! {

/// Whether a text is made of the characters that JSON lets stand between tokens: spaces, tabs,
/// line feeds and carriage returns.
pub open spec fn between_tokens(w: Seq<char>) -> bool {
    forall|i: int|
        0 <= i < w.len() ==> (#[trigger] w[i] == ' ' || w[i] == '\t' || w[i] == '\n' || w[i]
            == '\r')
}

/// Whether a text begins with a character that is no space between tokens.
pub open spec fn begins_token(s: Seq<char>) -> bool {
    s.len() > 0 && s[0] != ' ' && s[0] != '\t' && s[0] != '\n' && s[0] != '\r'
}

proof fn lemma_space(w: Seq<char>, s: Seq<char>)
    requires
        between_tokens(w),
        s.len() == 0 || begins_token(s),
    ensures
        json::after_space(w + s) == s,
    decreases w.len(),
{
    if w.len() == 0 {
        assert(w + s =~= s);
    } else {
        let x = w.drop_first();
        assert forall|i: int| 0 <= i < x.len() implies (#[trigger] x[i] == ' ' || x[i] == '\t' || x[i]
            == '\n' || x[i] == '\r') by {
            assert(x[i] == w[i + 1]);
        }
        lemma_space(x, s);
        assert(w[0] == (w + s)[0]);
        assert((w + s).drop_first() =~= x + s);
    }
}

proof fn lemma_token(w: Seq<char>, c: char, s: Seq<char>, d: char)
    requires
        between_tokens(w),
        begins_token(seq![c]),
    ensures
        json::after_token(w + seq![c] + s, d) == if d == c {
            Some(s)
        } else {
            None
        },
{
    lemma_space(w, seq![c] + s);
    assert(w + seq![c] + s =~= w + (seq![c] + s));
    assert((seq![c] + s).drop_first() =~= s);
}

/// Braces with nothing but space between and behind them are an object without members;
/// brackets are an array without elements.
pub proof fn empty_brackets_hold_nothing(u: Seq<char>, v: Seq<char>, w: Seq<char>)
    requires
        between_tokens(u),
        between_tokens(v),
        between_tokens(w),
    ensures
        json::object_members(u + seq!['{'] + (v + seq!['}'] + w)) == Some(
            Seq::<(Seq<char>, Seq<char>)>::empty(),
        ),
        json::array_elements(u + seq!['['] + (v + seq![']'] + w)) == Some(Seq::<Seq<char>>::empty()),
{
    let none = Seq::<char>::empty();
    lemma_token(u, '{', v + seq!['}'] + w, '{');
    lemma_token(v, '}', w, '}');
    lemma_token(u, '[', v + seq![']'] + w, '[');
    lemma_token(v, ']', w, ']');
    lemma_space(w, none);
    assert(w + none =~= w);
}

/// An object whose first member is followed by its end has that member; one whose first member
/// is followed by a comma has that member and those of the rest. What follows the end may be
/// space alone, else there is no object.
pub proof fn objects_are_read_member_by_member(
    u: Seq<char>,
    t: Seq<char>,
    key: Seq<char>,
    v: Seq<char>,
    b: Seq<char>,
    value: Seq<char>,
    w: Seq<char>,
    rest: Seq<char>,
)
    requires
        between_tokens(u),
        between_tokens(v),
        between_tokens(w),
        begins_token(t) && t[0] != '}',
        json::json_string_prefix(t) == Some((key, v + seq![':'] + b)),
    ensures
        json::json_value_prefix(b) == Some((value, w + seq!['}'] + rest)) && between_tokens(rest)
            ==> json::object_members(u + seq!['{'] + t) == Some(seq![(key, value)]),
        json::json_value_prefix(b) == Some((value, w + seq!['}'] + rest)) && begins_token(rest)
            ==> json::object_members(u + seq!['{'] + t) is None,
        json::json_value_prefix(b) == Some((value, w + seq![','] + rest)) && rest.len() < t.len()
            && begins_token(rest) && rest[0] != '}' ==> json::object_members(u + seq!['{'] + t) == (
        match json::object_members(u + seq!['{'] + rest) {
            Some(more) => Some(seq![(key, value)] + more),
            None => None,
        }),
        json::json_value_prefix(b) is None ==> json::object_members(u + seq!['{'] + t) is None,
{
    let none = Seq::<char>::empty();
    lemma_token(u, '{', t, '{');
    lemma_space(none, t);
    assert(none + t =~= t);
    lemma_token(v, ':', b, ':');
    lemma_token(w, '}', rest, '}');
    lemma_token(w, '}', rest, ',');
    lemma_token(w, ',', rest, ',');
    if between_tokens(rest) {
        lemma_space(rest, none);
        assert(rest + none =~= rest);
    }
    if begins_token(rest) {
        lemma_space(none, rest);
        assert(none + rest =~= rest);
        lemma_token(u, '{', rest, '{');
    }
}

/// An array whose first element is followed by its end has that element; one whose first
/// element is followed by a comma has that element and those of the rest.
pub proof fn arrays_are_read_element_by_element(
    u: Seq<char>,
    t: Seq<char>,
    value: Seq<char>,
    w: Seq<char>,
    rest: Seq<char>,
)
    requires
        between_tokens(u),
        between_tokens(w),
        begins_token(t) && t[0] != ']',
    ensures
        json::json_value_prefix(t) == Some((value, w + seq![']'] + rest)) && between_tokens(rest)
            ==> json::array_elements(u + seq!['['] + t) == Some(seq![value]),
        json::json_value_prefix(t) == Some((value, w + seq![']'] + rest)) && begins_token(rest)
            ==> json::array_elements(u + seq!['['] + t) is None,
        json::json_value_prefix(t) == Some((value, w + seq![','] + rest)) && rest.len() < t.len()
            && begins_token(rest) && rest[0] != ']' ==> json::array_elements(u + seq!['['] + t) == (
        match json::array_elements(u + seq!['['] + rest) {
            Some(more) => Some(seq![value] + more),
            None => None,
        }),
{
    let none = Seq::<char>::empty();
    lemma_token(u, '[', t, '[');
    lemma_space(none, t);
    assert(none + t =~= t);
    lemma_token(w, ']', rest, ']');
    lemma_token(w, ']', rest, ',');
    lemma_token(w, ',', rest, ',');
    if between_tokens(rest) {
        lemma_space(rest, none);
        assert(rest + none =~= rest);
    }
    if begins_token(rest) {
        lemma_space(none, rest);
        assert(none + rest =~= rest);
        lemma_token(u, '[', rest, '[');
    }
}

} // verus!
