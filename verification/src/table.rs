//! Small tables from text to text.

use vstd::prelude::*;

use crate::text::same_text;

verus! {

/// What a table says.
pub open spec fn table_view(t: Seq<(String, String)>) -> Seq<(Seq<char>, Seq<char>)> {
    t.map_values(|e: (String, String)| (e.0@, e.1@))
}

/// The value that a table gives for `key`: that of the first entry with this key.
pub open spec fn table_get(t: Seq<(Seq<char>, Seq<char>)>, key: Seq<char>) -> Option<Seq<char>>
    decreases t.len(),
{
    if t.len() == 0 {
        None
    } else if t[0].0 == key {
        Some(t[0].1)
    } else {
        table_get(t.drop_first(), key)
    }
}

/// Entries before place `i` that have another key do not count.
proof fn lemma_table_skip(t: Seq<(Seq<char>, Seq<char>)>, key: Seq<char>, i: int)
    requires
        0 <= i <= t.len(),
        forall|k: int| 0 <= k < i ==> (#[trigger] t[k]).0 != key,
    ensures
        table_get(t, key) == table_get(t.skip(i), key),
    decreases i,
{
    if i == 0 {
        assert(t.skip(0) =~= t);
    } else {
        assert(t[0].0 != key);
        let u = t.drop_first();
        assert forall|k: int| 0 <= k < i - 1 implies (#[trigger] u[k]).0 != key by {
            assert(u[k] == t[k + 1]);
        }
        lemma_table_skip(u, key, i - 1);
        assert(u.skip(i - 1) =~= t.skip(i));
    }
}

/// The value that a table gives for `key`.
pub fn lookup<'a>(table: &'a Vec<(String, String)>, key: &str) -> (r: Option<&'a String>)
    ensures
        match r {
            Some(v) => table_get(table_view(table@), key@) == Some(v@),
            None => table_get(table_view(table@), key@) is None,
        },
{
    let ghost t = table_view(table@);
    let mut i: usize = 0;
    while i < table.len()
        invariant
            i <= table@.len(),
            t == table_view(table@),
            forall|k: int| 0 <= k < i ==> (#[trigger] t[k]).0 != key@,
        decreases table@.len() - i,
    {
        if same_text(table[i].0.as_str(), key) {
            proof {
                lemma_table_skip(t, key@, i as int);
                assert(t.skip(i as int)[0] == t[i as int]);
            }
            return Some(&table[i].1);
        }
        assert(t[i as int].0 == table@[i as int].0@);
        i += 1;
    }
    proof {
        lemma_table_skip(t, key@, i as int);
        assert(t.skip(i as int).len() == 0);
    }
    None
}

/// A lookup gives the value of an entry with that key before which no entry has it, and nothing
/// exactly where no entry has it.
pub proof fn law_a_lookup_gives_the_first_entry(
    table: Vec<(String, String)>,
    key: &str,
    r: Option<&String>,
    i: int,
)
    requires
        call_ensures(lookup, (&table, key), r),
    ensures
        0 <= i < table@.len() && table@[i].0@ == key@ && (forall|k: int|
            0 <= k < i ==> (#[trigger] table@[k]).0@ != key@) ==> (r matches Some(v) && v@
            == table@[i].1@),
        r is None ==> forall|k: int| 0 <= k < table@.len() ==> (#[trigger] table@[k]).0@ != key@,
        (forall|k: int| 0 <= k < table@.len() ==> (#[trigger] table@[k]).0@ != key@) ==> r is None,
{
    let t = table_view(table@);
    law_the_first_entry_counts(t, key@, i);
    assert forall|k: int| 0 <= k < t.len() implies (#[trigger] t[k]) == (
        table@[k].0@,
        table@[k].1@,
    ) by {}
    if 0 <= i < table@.len() && table@[i].0@ == key@ && (forall|k: int|
        0 <= k < i ==> (#[trigger] table@[k]).0@ != key@) {
        assert forall|k: int| 0 <= k < i implies (#[trigger] t[k]).0 != key@ by {
            assert(table@[k].0@ != key@);
        }
    }
    if r is None {
        assert forall|k: int| 0 <= k < table@.len() implies (#[trigger] table@[k]).0@ != key@ by {
            assert(t[k].0 != key@);
        }
    }
    if forall|k: int| 0 <= k < table@.len() ==> (#[trigger] table@[k]).0@ != key@ {
        assert forall|k: int| 0 <= k < t.len() implies (#[trigger] t[k]).0 != key@ by {
            assert(table@[k].0@ != key@);
        }
    }
}

/// Of the entries with one key the first counts, and without one there is no value.
pub proof fn law_the_first_entry_counts(t: Seq<(Seq<char>, Seq<char>)>, key: Seq<char>, i: int)
    ensures
        0 <= i < t.len() && t[i].0 == key && (forall|k: int| 0 <= k < i ==> (#[trigger] t[k]).0
            != key) ==> table_get(t, key) == Some(t[i].1),
        table_get(t, key) is None <==> forall|k: int|
            0 <= k < t.len() ==> (#[trigger] t[k]).0 != key,
    decreases t.len(),
{
    if t.len() > 0 {
        let rest = t.drop_first();
        law_the_first_entry_counts(rest, key, i - 1);
        if t[0].0 != key {
            if 0 <= i < t.len() && t[i].0 == key && (forall|k: int|
                0 <= k < i ==> (#[trigger] t[k]).0 != key) {
                assert(i > 0);
                assert(rest[i - 1] == t[i]);
                assert forall|k: int| 0 <= k < i - 1 implies (#[trigger] rest[k]).0 != key by {
                    assert(t[k + 1].0 != key);
                }
            }
            if table_get(t, key) is None {
                assert forall|k: int| 0 <= k < t.len() implies (#[trigger] t[k]).0 != key by {
                    if k > 0 {
                        assert(rest[k - 1].0 != key);
                    }
                }
            }
            if forall|k: int| 0 <= k < t.len() ==> (#[trigger] t[k]).0 != key {
                assert forall|k: int| 0 <= k < rest.len() implies (#[trigger] rest[k]).0 != key by {
                    assert(t[k + 1].0 != key);
                }
            }
        }
    }
}

} // verus!
