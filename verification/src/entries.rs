//! Lists of entries keyed by text, read as maps: of two entries with one key the later counts.

use vstd::prelude::*;

use crate::text::same_text;

verus! {

/// The map that a list of entries stands for.
pub open spec fn entries_map<V>(entries: Seq<(String, V)>) -> Map<Seq<char>, V>
    decreases entries.len(),
{
    if entries.len() == 0 {
        Map::empty()
    } else {
        entries_map(entries.drop_last()).insert(entries.last().0@, entries.last().1)
    }
}

/// Whether no key occurs twice.
pub open spec fn distinct_keys<V>(entries: Seq<(String, V)>) -> bool {
    forall|i: int, j: int|
        0 <= i < j < entries.len() ==> (#[trigger] entries[i]).0@ != (#[trigger] entries[j]).0@
}

/// The last entry of a key gives the key's value.
pub proof fn lemma_last_entry_counts<V>(entries: Seq<(String, V)>, i: int)
    requires
        0 <= i < entries.len(),
        forall|j: int| i < j < entries.len() ==> (#[trigger] entries[j]).0@ != entries[i].0@,
    ensures
        entries_map(entries).contains_key(entries[i].0@),
        entries_map(entries)[entries[i].0@] == entries[i].1,
    decreases entries.len(),
{
    if i < entries.len() - 1 {
        let front = entries.drop_last();
        assert forall|j: int| i < j < front.len() implies (#[trigger] front[j]).0@ != front[i].0@ by {
            assert(front[j] == entries[j]);
        }
        lemma_last_entry_counts(front, i);
        assert(entries[entries.len() - 1].0@ != entries[i].0@);
    }
}

/// A key that no entry has is not in the map.
pub proof fn lemma_absent_key<V>(entries: Seq<(String, V)>, key: Seq<char>)
    requires
        forall|j: int| 0 <= j < entries.len() ==> (#[trigger] entries[j]).0@ != key,
    ensures
        !entries_map(entries).contains_key(key),
    decreases entries.len(),
{
    if entries.len() > 0 {
        let front = entries.drop_last();
        assert forall|j: int| 0 <= j < front.len() implies (#[trigger] front[j]).0@ != key by {
            assert(front[j] == entries[j]);
        }
        lemma_absent_key(front, key);
        assert(entries[entries.len() - 1].0@ != key);
    }
}

/// Every key of the map comes from an entry, and the map has finitely many keys.
pub proof fn lemma_keys_come_from_entries<V>(entries: Seq<(String, V)>)
    ensures
        entries_map(entries).dom().finite(),
        forall|key: Seq<char>| #[trigger]
            entries_map(entries).contains_key(key) ==> exists|i: int|
                0 <= i < entries.len() && (#[trigger] entries[i]).0@ == key,
    decreases entries.len(),
{
    if entries.len() > 0 {
        let front = entries.drop_last();
        lemma_keys_come_from_entries(front);
        assert forall|key: Seq<char>| #[trigger] entries_map(entries).contains_key(key) implies exists|
            i: int,
        |
            0 <= i < entries.len() && (#[trigger] entries[i]).0@ == key by {
            if key == entries.last().0@ {
                assert(entries[entries.len() - 1].0@ == key);
            } else {
                assert(entries_map(front).contains_key(key));
                let i = choose|i: int| 0 <= i < front.len() && (#[trigger] front[i]).0@ == key;
                assert(entries[i].0@ == key);
            }
        }
    }
}

/// Where keys are distinct, each entry is its key's value.
pub proof fn lemma_distinct_entry<V>(entries: Seq<(String, V)>, i: int)
    requires
        distinct_keys(entries),
        0 <= i < entries.len(),
    ensures
        entries_map(entries).contains_key(entries[i].0@),
        entries_map(entries)[entries[i].0@] == entries[i].1,
{
    assert forall|j: int| i < j < entries.len() implies (#[trigger] entries[j]).0@ != entries[i].0@ by {
        assert(entries[i].0@ != entries[j].0@);
    }
    lemma_last_entry_counts(entries, i);
}

/// The place of the last entry with the key.
pub fn find_entry<V>(entries: &Vec<(String, V)>, key: &str) -> (r: Option<usize>)
    ensures
        match r {
            Some(i) => {
                &&& i < entries@.len()
                &&& entries@[i as int].0@ == key@
                &&& entries_map(entries@).contains_key(key@)
                &&& entries_map(entries@)[key@] == entries@[i as int].1
            },
            None => !entries_map(entries@).contains_key(key@) && forall|j: int|
                0 <= j < entries@.len() ==> (#[trigger] entries@[j]).0@ != key@,
        },
{
    let mut n: usize = entries.len();
    while n > 0
        invariant
            n <= entries@.len(),
            forall|j: int| n <= j < entries@.len() ==> (#[trigger] entries@[j]).0@ != key@,
        decreases n,
    {
        if same_text(entries[n - 1].0.as_str(), key) {
            proof {
                lemma_last_entry_counts(entries@, n - 1);
            }
            return Some(n - 1);
        }
        n = n - 1;
    }
    proof {
        lemma_absent_key(entries@, key@);
    }
    None
}

/// Sets the value of a key, in place where the key is there already.
pub fn put_entry<V>(entries: &mut Vec<(String, V)>, key: String, value: V)
    requires
        distinct_keys(old(entries)@),
    ensures
        distinct_keys(final(entries)@),
        entries_map(final(entries)@) == entries_map(old(entries)@).insert(key@, value),
{
    let ghost before = entries@;
    match find_entry(entries, key.as_str()) {
        Some(i) => {
            entries.set(i, (key, value));
            proof {
                let after = entries@;
                assert(after == before.update(i as int, (key, value)));
                assert forall|a: int, b: int| 0 <= a < b < after.len() implies (
                #[trigger] after[a]).0@ != (#[trigger] after[b]).0@ by {
                    assert(before[a].0@ != before[b].0@);
                }
                let expected = entries_map(before).insert(key@, value);
                lemma_keys_come_from_entries(before);
                lemma_keys_come_from_entries(after);
                assert forall|k: Seq<char>|
                    #![trigger entries_map(after).dom().contains(k)]
                    #![trigger expected.dom().contains(k)]
                    #![trigger entries_map(after)[k]]
                    #![trigger expected[k]]
                    entries_map(after).contains_key(k) == expected.contains_key(k) && (
                    expected.contains_key(k) ==> entries_map(after)[k] == expected[k]) by {
                    if entries_map(after).contains_key(k) {
                        let j = choose|j: int| 0 <= j < after.len() && (#[trigger] after[j]).0@ == k;
                        lemma_distinct_entry(after, j);
                        lemma_distinct_entry(before, j);
                        if j == i {
                        } else {
                            assert(after[j] == before[j]);
                            if j < i {
                                assert(before[j].0@ != before[i as int].0@);
                            } else {
                                assert(before[i as int].0@ != before[j].0@);
                            }
                        }
                    } else if expected.contains_key(k) {
                        if k == key@ {
                            lemma_distinct_entry(after, i as int);
                        } else {
                            let j = choose|j: int|
                                0 <= j < before.len() && (#[trigger] before[j]).0@ == k;
                            lemma_distinct_entry(after, j);
                        }
                    }
                }
                assert(entries_map(after) =~= expected);
            }
        },
        None => {
            entries.push((key, value));
            proof {
                let after = entries@;
                assert(after.drop_last() == before);
                assert forall|a: int, b: int| 0 <= a < b < after.len() implies (
                #[trigger] after[a]).0@ != (#[trigger] after[b]).0@ by {
                    assert(after[a] == before[a]);
                    if b < before.len() {
                        assert(after[b] == before[b]);
                    }
                }
            }
        },
    }
}

} // verus!
