//! Lists of named values.

use crate::text::same_text;
use vstd::prelude::*;
use vstd::string::*;

verus! {

/// The value that the first entry for a name holds.
pub open spec fn value_for<V>(entries: Seq<(String, V)>, name: Seq<char>) -> Option<V>
    decreases entries.len(),
{
    if entries.len() == 0 {
        None
    } else if entries[0].0@ == name {
        Some(entries[0].1)
    } else {
        value_for(entries.skip(1), name)
    }
}

/// What holds of the value for a name, given where its first entry is.
pub proof fn lemma_value_for<V>(entries: Seq<(String, V)>, name: Seq<char>, i: int)
    requires
        0 <= i <= entries.len(),
        forall|j: int| 0 <= j < i ==> (#[trigger] entries[j]).0@ != name,
        i < entries.len() ==> entries[i].0@ == name,
    ensures
        value_for(entries, name) == if i < entries.len() {
            Some(entries[i].1)
        } else {
            None
        },
    decreases entries.len(),
{
    if 0 < i {
        assert(entries[0].0@ != name);
        let rest = entries.skip(1);
        assert forall|j: int| 0 <= j < i - 1 implies (#[trigger] rest[j]).0@ != name by {
            assert(rest[j] == entries[j + 1]);
        }
        lemma_value_for(rest, name, i - 1);
    }
}

/// The place of the first entry for a name, or the number of entries.
pub fn place_for<V>(entries: &Vec<(String, V)>, name: &str) -> (i: usize)
    ensures
        i <= entries@.len(),
        forall|j: int| 0 <= j < i ==> (#[trigger] entries@[j]).0@ != name@,
        i < entries@.len() ==> entries@[i as int].0@ == name@,
        value_for(entries@, name@) == if i < entries@.len() {
            Some(entries@[i as int].1)
        } else {
            None
        },
{
    let mut i: usize = 0;
    while i < entries.len() && !same_text(entries[i].0.as_str(), name)
        invariant
            i <= entries@.len(),
            forall|j: int| 0 <= j < i ==> (#[trigger] entries@[j]).0@ != name@,
        decreases entries@.len() - i,
    {
        i = i + 1;
    }
    proof {
        lemma_value_for(entries@, name@, i as int);
    }
    i
}

/// Setting the value for one name leaves those of the others.
pub proof fn lemma_value_set<V>(
    before: Seq<(String, V)>,
    after: Seq<(String, V)>,
    name: Seq<char>,
    other: Seq<char>,
)
    requires
        other != name,
        before.len() <= after.len() <= before.len() + 1,
        after.len() > before.len() ==> after[before.len() as int].0@ == name,
        forall|j: int|
            0 <= j < before.len() ==> after[j] == #[trigger] before[j] || (after[j].0@ == name
                && before[j].0@ == name),
    ensures
        value_for(after, other) == value_for(before, other),
    decreases after.len(),
{
    if after.len() == 0 {
    } else if before.len() == 0 {
        assert(after.skip(1).len() == 0);
        assert(value_for(after.skip(1), other) is None);
    } else {
        assert(after[0] == before[0] || (after[0].0@ == name && before[0].0@ == name));
        if after[0].0@ != other {
            let b = before.skip(1);
            let a = after.skip(1);
            assert forall|j: int| 0 <= j < b.len() implies a[j] == #[trigger] b[j] || (a[j].0@
                == name && b[j].0@ == name) by {
                assert(b[j] == before[j + 1]);
                assert(a[j] == after[j + 1]);
            }
            if a.len() > b.len() {
                assert(a[b.len() as int] == after[before.len() as int]);
            }
            lemma_value_set(b, a, name, other);
        }
    }
}

/// Sets the value for a name: in its place where there is one, else at the end.
pub fn set_entry<V>(entries: &mut Vec<(String, V)>, name: &str, value: V)
    ensures
        value_for(final(entries)@, name@) == Some(value),
        forall|m: Seq<char>|
            m != name@ ==> #[trigger] value_for(final(entries)@, m) == value_for(
                old(entries)@,
                m,
            ),
{
    let i: usize = place_for(entries, name);
    if i < entries.len() {
        entries.set(i, (name.to_string(), value));
    } else {
        entries.push((name.to_string(), value));
    }
    proof {
        let before = old(entries)@;
        let after = entries@;
        assert forall|j: int| 0 <= j < i implies (#[trigger] after[j]).0@ != name@ by {
            assert(after[j] == before[j]);
        }
        lemma_value_for(after, name@, i as int);
        assert forall|m: Seq<char>| m != name@ implies #[trigger] value_for(after, m)
            == value_for(before, m) by {
            lemma_value_set(before, after, name@, m);
        }
    }
}

} // verus!
