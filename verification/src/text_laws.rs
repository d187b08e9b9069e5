//! What the functions on texts do, character by character.

use crate::display::truncate;
use crate::number;
use crate::number::{integer, parse_unsigned};
use crate::pattern;
use crate::text;
use crate::text::{
    contains_text, decimal, join, join_path, split_once, starts_with, strip_prefix, trim, trim_end,
};
use crate::unicode;
use crate::unicode::is_white_space;
use vstd::arithmetic::power::pow;
use vstd::prelude::*;
use vstd::string::*;

verus! {

/// The white space of Unicode: tab, line feed, the two characters behind it, carriage return
/// and the space; next line and the no-break space; the spaces of the other blocks.
pub proof fn white_space_of_unicode(c: char, r: bool)
    requires
        call_ensures(is_white_space, (c,), r),
    ensures
        r <==> c == '\t' || c == '\n' || c == '\u{b}' || c == '\u{c}' || c == '\r' || c == ' ' || c
            == '\u{85}' || c == '\u{a0}' || c == '\u{1680}' || '\u{2000}' <= c <= '\u{200a}' || c
            == '\u{2028}' || c == '\u{2029}' || c == '\u{202f}' || c == '\u{205f}' || c
            == '\u{3000}',
{
}

/// Whether a text is white space alone.
pub open spec fn blank(s: Seq<char>) -> bool {
    forall|i: int| 0 <= i < s.len() ==> unicode::white_space(#[trigger] s[i])
}

/// Whether `t` is `s` without the white space around it.
pub open spec fn core_of(t: Seq<char>, s: Seq<char>, a: Seq<char>, b: Seq<char>) -> bool {
    &&& s == a + t + b
    &&& blank(a)
    &&& blank(b)
    &&& t.len() > 0 ==> !unicode::white_space(t[0]) && !unicode::white_space(t.last())
}

proof fn lemma_end(s: Seq<char>) -> (b: Seq<char>)
    ensures
        s == text::trimmed_end(s) + b,
        blank(b),
        text::trimmed_end(s).len() > 0 ==> !unicode::white_space(text::trimmed_end(s).last()),
    decreases s.len(),
{
    if s.len() > 0 && unicode::white_space(s.last()) {
        let b = lemma_end(s.drop_last());
        assert(s =~= text::trimmed_end(s) + b.push(s.last())) by {
            assert(s =~= s.drop_last().push(s.last()));
        }
        b.push(s.last())
    } else {
        assert(s =~= text::trimmed_end(s) + Seq::<char>::empty());
        Seq::<char>::empty()
    }
}

proof fn lemma_start(s: Seq<char>) -> (a: Seq<char>)
    ensures
        s == a + text::trimmed_start(s),
        blank(a),
        text::trimmed_start(s).len() > 0 ==> !unicode::white_space(text::trimmed_start(s)[0]),
    decreases s.len(),
{
    if s.len() > 0 && unicode::white_space(s[0]) {
        let a = lemma_start(s.drop_first());
        let r = seq![s[0]] + a;
        assert(s =~= r + text::trimmed_start(s)) by {
            assert(s =~= seq![s[0]] + s.drop_first());
        }
        assert forall|i: int| 0 <= i < r.len() implies unicode::white_space(#[trigger] r[i]) by {
            if i > 0 {
                assert(r[i] == a[i - 1]);
            }
        }
        r
    } else {
        assert(s =~= Seq::<char>::empty() + text::trimmed_start(s));
        Seq::<char>::empty()
    }
}

proof fn lemma_trimmed(s: Seq<char>)
    ensures
        exists|a: Seq<char>, b: Seq<char>| #[trigger] core_of(text::trimmed(s), s, a, b),
{
    let a = lemma_start(s);
    let m = text::trimmed_start(s);
    let b = lemma_end(m);
    let t = text::trimmed(s);
    assert(s =~= a + t + b);
    if t.len() > 0 {
        assert(m[0] == t[0]);
    }
    assert(core_of(t, s, a, b));
}

/// Trimming takes white space off both ends of a text and nothing else: the text is the result
/// with white space alone around it, and the result neither begins nor ends with any.
pub proof fn trimming_leaves_the_core(s: &str, r: String)
    requires
        call_ensures(trim, (s,), r),
    ensures
        exists|a: Seq<char>, b: Seq<char>| #[trigger] core_of(r@, s@, a, b),
        r@.len() == 0 <==> blank(s@),
{
    lemma_core(s@);
}

pub(crate) proof fn lemma_core(s: Seq<char>)
    ensures
        exists|a: Seq<char>, b: Seq<char>| #[trigger] core_of(text::trimmed(s), s, a, b),
        text::trimmed(s).len() == 0 <==> blank(s),
{
    lemma_trimmed(s);
    let t = text::trimmed(s);
    let (a, b) = choose|a: Seq<char>, b: Seq<char>| #[trigger] core_of(t, s, a, b);
    if t.len() == 0 {
        assert forall|i: int| 0 <= i < s.len() implies unicode::white_space(#[trigger] s[i]) by {
            if i < a.len() {
                assert(s[i] == a[i]);
            } else {
                assert(s[i] == b[i - a.len()]);
            }
        }
    } else {
        assert(s[a.len() as int] == t[0]);
    }
}

/// There is one way to take the white space off a text: what stands between white space and
/// does not begin or end with any is what trimming gives.
pub proof fn trimming_is_unique(t: Seq<char>, s: Seq<char>, a: Seq<char>, b: Seq<char>)
    requires
        core_of(t, s, a, b),
    ensures
        text::trimmed(s) == t,
{
    lemma_trimmed(s);
    let u = text::trimmed(s);
    let (x, y) = choose|x: Seq<char>, y: Seq<char>| #[trigger] core_of(u, s, x, y);
    if t.len() == 0 {
        if u.len() > 0 {
            let i = x.len() as int;
            assert(s[i] == u[0]);
            if i < a.len() {
                assert(s[i] == a[i]);
            } else {
                assert(s[i] == b[i - a.len()]);
            }
        }
        assert(u =~= t);
    } else if u.len() == 0 {
        let i = a.len() as int;
        assert(s[i] == t[0]);
        if i < x.len() {
            assert(s[i] == x[i]);
        } else {
            assert(s[i] == y[i - x.len()]);
        }
    } else {
        let i = a.len() as int;
        let k = x.len() as int;
        assert(s[i] == t[0] && s[k] == u[0]);
        if i < k {
            assert(s[i] == x[i]);
        }
        if k < i {
            assert(s[k] == a[k]);
        }
        let p = i + t.len() - 1;
        let q = k + u.len() - 1;
        assert(s[p] == t.last() && s[q] == u.last());
        if p < q {
            assert(s[q] == b[q - i - t.len()]);
        }
        if q < p {
            assert(s[p] == y[p - k - u.len()]);
        }
        assert(t =~= s.subrange(i, p + 1));
        assert(u =~= s.subrange(k, q + 1));
    }
}

/// Trimming the end takes white space off the end of a text and nothing else.
pub proof fn end_trimming_takes_white_space(s: &str, r: String)
    requires
        call_ensures(trim_end, (s,), r),
    ensures
        r@.is_prefix_of(s@),
        blank(s@.skip(r@.len() as int)),
        r@.len() > 0 ==> !unicode::white_space(r@.last()),
{
    lemma_end_core(s@);
}

pub(crate) proof fn lemma_end_core(s: Seq<char>)
    ensures
        text::trimmed_end(s).is_prefix_of(s),
        blank(s.skip(text::trimmed_end(s).len() as int)),
        text::trimmed_end(s).len() > 0 ==> !unicode::white_space(text::trimmed_end(s).last()),
{
    let t = text::trimmed_end(s);
    let b = lemma_end(s);
    assert(s.skip(t.len() as int) =~= b);
    assert(s.take(t.len() as int) =~= t);
}

/// Splitting a text gives what stands before the first separator and what stands after it;
/// without a separator there is nothing to split.
pub proof fn splitting_finds_the_first(s: &str, c: char, r: Option<(String, String)>)
    requires
        call_ensures(split_once, (s, c), r),
    ensures
        match r {
            Some((before, after)) => s@ == before@ + seq![c] + after@ && !before@.contains(c),
            None => !s@.contains(c),
        },
{
    text::lemma_split_at_first(s@, c);
}

/// What follows a prefix is all that the text holds beyond it, and a text that does not begin
/// with the prefix has nothing that follows it.
pub proof fn prefixes_are_taken_off(s: &str, p: &str, r: Option<String>, begins: bool)
    requires
        call_ensures(strip_prefix, (s, p), r),
        call_ensures(starts_with, (s, p), begins),
    ensures
        r matches Some(t) ==> s@ == p@ + t@,
        r is None ==> forall|t: Seq<char>| s@ != #[trigger] (p@ + t),
        begins == (r is Some),
{
    match r {
        Some(t) => {
            assert(s@ =~= p@ + t@);
        },
        None => {
            assert forall|t: Seq<char>| s@ != #[trigger] (p@ + t) by {
                if s@ == p@ + t {
                    assert(s@.take(p@.len() as int) =~= p@);
                }
            }
        },
    }
}

/// A text holds another exactly where some stretch of its characters is that text.
pub proof fn holding_means_a_stretch(s: &str, p: &str, r: bool)
    requires
        call_ensures(contains_text, (s, p), r),
    ensures
        r <==> exists|i: int|
            0 <= i && i + p@.len() <= s@.len() && #[trigger] s@.subrange(i, i + p@.len()) == p@,
{
    if r {
        let i = choose|i: int| 0 <= i <= s@.len() && p@.is_prefix_of(#[trigger] s@.skip(i));
        assert(s@.subrange(i, i + p@.len()) =~= s@.skip(i).subrange(0, p@.len() as int));
    }
    if exists|i: int|
        0 <= i && i + p@.len() <= s@.len() && #[trigger] s@.subrange(i, i + p@.len()) == p@ {
        let i = choose|i: int|
            0 <= i && i + p@.len() <= s@.len() && #[trigger] s@.subrange(i, i + p@.len()) == p@;
        assert(s@.skip(i).subrange(0, p@.len() as int) =~= p@);
        assert(p@.is_prefix_of(s@.skip(i)));
    }
}

/// Joined texts are the first, the separator and the rest joined; one text is joined to
/// itself, and none to nothing.
pub proof fn joining_puts_separators_between(v: Seq<Seq<char>>, sep: Seq<char>)
    ensures
        v.len() == 0 ==> text::joined(v, sep) == Seq::<char>::empty(),
        v.len() == 1 ==> text::joined(v, sep) == v[0],
        v.len() > 1 ==> text::joined(v, sep) == v[0] + sep + text::joined(v.skip(1), sep),
    decreases v.len(),
{
    if v.len() == 2 {
        assert(v.drop_last() =~= seq![v[0]]);
        assert(v.skip(1) =~= seq![v[1]]);
        assert(text::joined(v.drop_last(), sep) == v[0]);
        assert(text::joined(v.skip(1), sep) == v[1]);
    } else if v.len() > 2 {
        joining_puts_separators_between(v.drop_last(), sep);
        assert(v.drop_last().skip(1) =~= v.skip(1).drop_last());
        assert(text::joined(v, sep) =~= v[0] + sep + text::joined(v.skip(1), sep));
    }
}

/// The text that a list of strings is joined to is that of their characters.
pub proof fn joining_joins_the_strings(v: Vec<String>, sep: &str, r: String)
    requires
        call_ensures(join, (&v, sep), r),
    ensures
        r@ == text::joined(pattern::texts(v@), sep@),
        v@.len() == 0 ==> r@.len() == 0,
        v@.len() == 1 ==> r@ == v@[0]@,
        v@.len() == 2 ==> r@ == v@[0]@ + sep@ + v@[1]@,
{
    let parts = v@.map_values(|s: String| s@);
    assert(parts =~= pattern::texts(v@));
    joining_puts_separators_between(parts, sep@);
    if v@.len() == 2 {
        joining_puts_separators_between(parts.skip(1), sep@);
    }
}

/// A path below a directory is the directory, one slash and the path: the slash is added where
/// the directory does not end in one, and left out where there is no directory.
pub proof fn paths_have_one_slash(dir: &str, path: &str, r: String)
    requires
        call_ensures(join_path, (dir, path), r),
    ensures
        dir@.len() == 0 ==> r@ == path@,
        dir@.len() > 0 && dir@.last() == '/' ==> r@ == dir@ + path@,
        dir@.len() > 0 && dir@.last() != '/' ==> r@ == dir@ + seq!['/'] + path@,
{
    if dir@.len() == 0 {
        assert(dir@ + path@ =~= path@);
    }
}

/// A text that fits is not cut; one that does not is cut to the width, with three dots for
/// what is missing where there is room for them.
pub proof fn cutting_keeps_the_beginning(s: &str, max: usize, r: String)
    requires
        call_ensures(truncate, (s, max), r),
    ensures
        s@.len() <= max ==> r@ == s@,
        s@.len() > max ==> r@.len() == max,
        s@.len() > max && max < 3 ==> r@.is_prefix_of(s@),
        s@.len() > max && max >= 3 ==> {
            &&& forall|i: int| 0 <= i < max - 3 ==> r@[i] == s@[i]
            &&& forall|i: int| max - 3 <= i < max ==> r@[i] == '.'
        },
{
    reveal_strlit("...");
    if s@.len() > max && max < 3 {
        assert(s@.take(r@.len() as int) =~= r@);
    }
}

/// The digit of a number at a place, counted from the right.
pub open spec fn digit_at(n: nat, i: nat) -> int {
    (n as int / pow(10, i)) % 10
}

/// Whether a text is a number in decimal digits: every digit is that of its place, there are
/// enough places, and none is there for a leading zero.
pub open spec fn decimal_digits(s: Seq<char>, n: nat) -> bool {
    &&& s.len() > 0
    &&& forall|i: int|
        0 <= i < s.len() ==> #[trigger] s[s.len() - 1 - i] == (0x30 + digit_at(n, i as nat)) as char
    &&& n < pow(10, s.len())
    &&& s.len() > 1 ==> n >= pow(10, (s.len() - 1) as nat)
}

proof fn lemma_pow_step(n: nat, i: nat)
    ensures
        digit_at(n, i + 1) == digit_at(n / 10, i),
        digit_at(n, 0) == n % 10,
        pow(10, i) > 0,
        pow(10, i + 1) == 10 * pow(10, i),
        pow(10, 0) == 1,
{
    vstd::arithmetic::power::lemma_pow_positive(10, i);
    vstd::arithmetic::power::lemma_pow0(10);
    vstd::arithmetic::power::lemma_pow_adds(10, 1, i);
    vstd::arithmetic::power::lemma_pow1(10);
    vstd::arithmetic::div_mod::lemma_div_denominator(n as int, 10, pow(10, i));
}

proof fn lemma_decimal_digits(n: nat)
    ensures
        decimal_digits(text::decimal_text(n), n),
    decreases n,
{
    let s = text::decimal_text(n);
    lemma_pow_step(n, 0);
    if n < 10 {
        vstd::arithmetic::power::lemma_pow1(10);
        assert(s.len() == 1);
        assert forall|i: int| 0 <= i < s.len() implies #[trigger] s[s.len() - 1 - i] == (0x30
            + digit_at(n, i as nat)) as char by {
            assert(i == 0);
        }
    } else {
        let m = n / 10;
        let t = text::decimal_text(m);
        lemma_decimal_digits(m);
        assert(s.len() == t.len() + 1);
        assert forall|i: int| 0 <= i < s.len() implies #[trigger] s[s.len() - 1 - i] == (0x30
            + digit_at(n, i as nat)) as char by {
            if i > 0 {
                let k = i - 1;
                assert(s[s.len() - 1 - i] == t[t.len() - 1 - k]);
                lemma_pow_step(n, k as nat);
            }
        }
        lemma_pow_step(n, t.len());
        lemma_pow_step(n, (t.len() - 1) as nat);
        assert(n >= pow(10, t.len())) by {
            if t.len() > 1 {
                assert(m >= pow(10, (t.len() - 1) as nat));
            } else {
                assert(pow(10, 0) == 1);
            }
        }
    }
}

/// A number is written with the decimal digit of every place, from the highest to the lowest,
/// and without leading zeros.
pub proof fn numbers_are_written_in_decimal(n: u64, r: String)
    requires
        call_ensures(decimal, (n,), r),
    ensures
        decimal_digits(r@, n as nat),
{
    lemma_decimal_digits(n as nat);
}

pub(crate) proof fn lemma_decimal_value(n: nat)
    ensures
        number::digits_value(text::decimal_text(n)) == n,
        text::decimal_text(n).len() > 0,
        forall|i: int|
            0 <= i < text::decimal_text(n).len() ==> number::ascii_digit(
                #[trigger] text::decimal_text(n)[i],
            ),
    decreases n,
{
    let s = text::decimal_text(n);
    if n < 10 {
        assert(s.drop_last() =~= Seq::<char>::empty());
        reveal_with_fuel(number::digits_value, 2);
    } else {
        lemma_decimal_value(n / 10);
        assert(s.drop_last() =~= text::decimal_text(n / 10));
    }
}

/// A number that was written is read back where it is not too large, and refused where it is;
/// so it is with a plus sign in front. A text with any character but a digit, a plus sign at
/// its head aside, is no number, and neither is a text without digits.
pub proof fn numbers_are_read_back(n: nat, max: u64, s: &str, r: Option<u64>)
    requires
        call_ensures(parse_unsigned, (s, max), r),
    ensures
        s@ == text::decimal_text(n) || s@ == seq!['+'] + text::decimal_text(n) ==> match r {
            Some(x) => x == n && n <= max,
            None => n > max,
        },
        s@.len() == 0 || s@ == seq!['+'] ==> r is None,
        (exists|i: int|
            0 <= i < s@.len() && !('0' <= #[trigger] s@[i] <= '9') && (i > 0 || s@[i] != '+'))
            ==> r is None,
{
    lemma_decimal_value(n);
    let t = text::decimal_text(n);
    let d = number::unsigned_digits(s@);
    if s@ == t {
        assert(number::ascii_digit(t[0]));
        assert(d == t);
    } else if s@ == seq!['+'] + t {
        assert(d =~= t);
    }
    if exists|i: int|
        0 <= i < s@.len() && !('0' <= #[trigger] s@[i] <= '9') && (i > 0 || s@[i] != '+') {
        let i = choose|i: int|
            0 <= i < s@.len() && !('0' <= #[trigger] s@[i] <= '9') && (i > 0 || s@[i] != '+');
        if s@[0] == '+' {
            assert(d[i - 1] == s@[i]);
            assert(!number::ascii_digit(d[i - 1]));
        } else {
            assert(d[i] == s@[i]);
            assert(!number::ascii_digit(d[i]));
        }
    }
}

/// A whole number is written in decimal digits, behind a minus sign where it is negative.
pub proof fn whole_numbers_have_a_sign(n: i32, r: String)
    requires
        call_ensures(integer, (n,), r),
    ensures
        n >= 0 ==> decimal_digits(r@, n as nat),
        n < 0 ==> r@.len() > 0 && r@[0] == '-' && decimal_digits(r@.skip(1), (-n) as nat),
{
    if n < 0 {
        lemma_decimal_digits((-n) as nat);
        assert(r@.skip(1) =~= text::decimal_text((-n) as nat));
    } else {
        lemma_decimal_digits(n as nat);
    }
}

} // verus!
