//! Lists of named values in which no name occurs twice, read as maps.

use vstd::prelude::*;
use crate::text::same_text;

verus! {

/// No name occurs twice.
pub open spec fn distinct_keys<V>(entries: Seq<(String, V)>) -> bool {
    forall|i: int, j: int| 0 <= i < j < entries.len() ==> entries[i].0@ != entries[j].0@
}

/// Some entry has the name `key`.
pub open spec fn has_key<V>(entries: Seq<(String, V)>, key: Seq<char>) -> bool {
    exists|i: int| 0 <= i < entries.len() && entries[i].0@ == key
}

/// The map that a list stands for: from each name to what its value stands
/// for. Of two entries with one name the later one counts.
pub open spec fn assoc_map<V: DeepView>(entries: Seq<(String, V)>) -> Map<Seq<char>, V::V>
    decreases entries.len(),
{
    if entries.len() == 0 {
        Map::empty()
    } else {
        assoc_map(entries.drop_last()).insert(entries.last().0@, entries.last().1.deep_view())
    }
}

/// The names of the map are the names of the list, and they are finitely many.
pub proof fn lemma_assoc_keys<V: DeepView>(entries: Seq<(String, V)>)
    ensures
        assoc_map(entries).dom().finite(),
        forall|key: Seq<char>| #[trigger]
            assoc_map(entries).contains_key(key) <==> has_key(entries, key),
    decreases entries.len(),
{
    if entries.len() > 0 {
        let front = entries.drop_last();
        lemma_assoc_keys(front);
        assert forall|key: Seq<char>| #[trigger]
            assoc_map(entries).contains_key(key) <==> has_key(entries, key) by {
            if has_key(front, key) {
                let i: int = choose|i: int| 0 <= i < front.len() && front[i].0@ == key;
                assert(entries[i].0@ == key);
            }
            if key == entries.last().0@ {
                assert(entries[entries.len() - 1].0@ == key);
            }
            if has_key(entries, key) {
                let i: int = choose|i: int| 0 <= i < entries.len() && entries[i].0@ == key;
                if i < front.len() {
                    assert(front[i].0@ == key);
                }
            }
        }
    }
}

/// Where no name occurs twice, each entry is found under its name.
pub proof fn lemma_assoc_value<V: DeepView>(entries: Seq<(String, V)>, i: int)
    requires
        distinct_keys(entries),
        0 <= i < entries.len(),
    ensures
        assoc_map(entries).contains_key(entries[i].0@),
        assoc_map(entries)[entries[i].0@] == entries[i].1.deep_view(),
    decreases entries.len(),
{
    if i < entries.len() - 1 {
        let front = entries.drop_last();
        assert(front[i] == entries[i]);
        lemma_assoc_value(front, i);
    }
}

/// Where no name occurs twice, the map has as many names as the list has
/// entries.
pub proof fn lemma_assoc_len<V: DeepView>(entries: Seq<(String, V)>)
    requires
        distinct_keys(entries),
    ensures
        assoc_map(entries).dom().finite(),
        assoc_map(entries).len() == entries.len(),
    decreases entries.len(),
{
    lemma_assoc_keys(entries);
    if entries.len() > 0 {
        let front = entries.drop_last();
        lemma_assoc_len(front);
        lemma_assoc_keys(front);
        if has_key(front, entries.last().0@) {
            let i: int = choose|i: int| 0 <= i < front.len() && front[i].0@ == entries.last().0@;
            assert(entries[i].0@ == entries[entries.len() - 1].0@);
        }
    }
}

/// An entry added at the end is an insertion into the map.
pub proof fn lemma_assoc_push<V: DeepView>(entries: Seq<(String, V)>, key: String, value: V)
    ensures
        assoc_map(entries.push((key, value))) == assoc_map(entries).insert(
            key@,
            value.deep_view(),
        ),
        distinct_keys(entries) && !has_key(entries, key@) ==> distinct_keys(
            entries.push((key, value)),
        ),
{
    assert(entries.push((key, value)).drop_last() =~= entries);
}

/// A new value under a name that the list holds is an insertion into the map
/// too, where no name occurs twice.
pub proof fn lemma_assoc_update<V: DeepView>(
    entries: Seq<(String, V)>,
    i: int,
    key: String,
    value: V,
)
    requires
        distinct_keys(entries),
        0 <= i < entries.len(),
        entries[i].0@ == key@,
    ensures
        assoc_map(entries.update(i, (key, value))) == assoc_map(entries).insert(
            key@,
            value.deep_view(),
        ),
        distinct_keys(entries.update(i, (key, value))),
    decreases entries.len(),
{
    let changed = entries.update(i, (key, value));
    let front = entries.drop_last();
    if i == entries.len() - 1 {
        assert(changed.drop_last() =~= front);
        assert(assoc_map(changed) =~= assoc_map(entries).insert(key@, value.deep_view()));
    } else {
        assert(front[i] == entries[i]);
        lemma_assoc_update(front, i, key, value);
        assert(changed.drop_last() =~= front.update(i, (key, value)));
        assert(changed.last() == entries.last());
        assert(entries[i].0@ != entries[entries.len() - 1].0@);
        assert(assoc_map(changed) =~= assoc_map(entries).insert(key@, value.deep_view()));
    }
}

/// The place of the entry named `key`, if there is one.
pub fn position<V>(entries: &Vec<(String, V)>, key: &str) -> (found: Option<usize>)
    ensures
        match found {
            Some(i) => i < entries.len() && entries@[i as int].0@ == key@,
            None => !has_key(entries@, key@),
        },
{
    let mut i: usize = 0;
    while i < entries.len()
        invariant
            i <= entries.len(),
            forall|j: int| 0 <= j < i ==> entries@[j].0@ != key@,
        decreases entries.len() - i,
    {
        if same_text(entries[i].0.as_str(), key) {
            return Some(i);
        }
        i += 1;
    }
    None
}

} // verus!
