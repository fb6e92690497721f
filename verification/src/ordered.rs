//! Insertion-ordered tables from the `indexmap` crate, as this crate uses
//! them. Verus does not look inside an `IndexMap`; what one holds is named
//! here, and the contracts below state what each operation does to it. These
//! contracts are taken on trust from the documentation of `indexmap`.

use indexmap::IndexMap;
use vstd::prelude::*;

use crate::config::{Provider, ProviderView};

verus! {

/// `indexmap::IndexMap`, opaque to the verifier.
#[verifier::external_type_specification]
#[verifier::external_body]
#[verifier::reject_recursive_types(K)]
#[verifier::reject_recursive_types(V)]
#[verifier::reject_recursive_types(S)]
pub struct ExIndexMap<K, V, S>(IndexMap<K, V, S>);

/// The entries of a table of texts, as pairs of key and value, in the order
/// in which the table holds them.
pub uninterp spec fn text_entries(table: IndexMap<String, String>) -> Seq<(Seq<char>, Seq<char>)>;

/// The first position in `entries` whose key is `key`, if there is one.
pub open spec fn position_of<V>(entries: Seq<(Seq<char>, V)>, key: Seq<char>) -> Option<int>
    decreases entries.len(),
{
    if entries.len() == 0 {
        None
    } else {
        match position_of(entries.drop_last(), key) {
            Some(i) => Some(i),
            None => if entries.last().0 == key {
                Some(entries.len() - 1)
            } else {
                None
            },
        }
    }
}

/// `entries` after `key` was given `value`: an entry with that key keeps its
/// place and gets the value, a new key goes to the end.
pub open spec fn upserted<V>(entries: Seq<(Seq<char>, V)>, key: Seq<char>, value: V) -> Seq<
    (Seq<char>, V),
> {
    match position_of(entries, key) {
        Some(i) => entries.update(i, (key, value)),
        None => entries.push((key, value)),
    }
}

/// `key` is the key of some entry.
pub open spec fn has_key<V>(entries: Seq<(Seq<char>, V)>, key: Seq<char>) -> bool {
    exists|i: int| 0 <= i < entries.len() && (#[trigger] entries[i]).0 == key
}

/// No key occurs twice.
pub open spec fn distinct_keys<V>(entries: Seq<(Seq<char>, V)>) -> bool {
    forall|i: int, j: int|
        0 <= i < j < entries.len() ==> (#[trigger] entries[i]).0 != (#[trigger] entries[j]).0
}

/// `entries` after each entry of `over` was put into it in turn: an entry
/// whose key is present replaces the one of that key where it stands, any
/// other is added at the end.
pub open spec fn overlaid<V>(entries: Seq<(Seq<char>, V)>, over: Seq<(Seq<char>, V)>) -> Seq<
    (Seq<char>, V),
>
    decreases over.len(),
{
    if over.len() == 0 {
        entries
    } else {
        upserted(overlaid(entries, over.drop_last()), over.last().0, over.last().1)
    }
}

/// The values of a sequence of entries, in order.
pub open spec fn values_of<V>(entries: Seq<(Seq<char>, V)>) -> Seq<V> {
    entries.map_values(|e: (Seq<char>, V)| e.1)
}

/// The keys of a sequence of entries, as a set.
pub open spec fn key_set<V>(entries: Seq<(Seq<char>, V)>) -> Set<Seq<char>> {
    Set::new(|key: Seq<char>| has_key(entries, key))
}

/// The value of the first entry with a key.
pub open spec fn value_at<V>(entries: Seq<(Seq<char>, V)>, key: Seq<char>) -> Option<V> {
    match position_of(entries, key) {
        Some(i) => Some(entries[i].1),
        None => None,
    }
}

/// The entries of a table of providers, as pairs of key and provider, in the
/// order in which the table holds them.
pub uninterp spec fn provider_entries(table: IndexMap<String, Provider>) -> Seq<
    (Seq<char>, ProviderView),
>;

/// `position_of` finds the first entry with the key, and only that.
pub proof fn lemma_position_of<V>(entries: Seq<(Seq<char>, V)>, key: Seq<char>)
    ensures
        position_of(entries, key) is Some <==> has_key(entries, key),
        position_of(entries, key) matches Some(i) ==> 0 <= i < entries.len() && entries[i].0 == key
            && forall|j: int| 0 <= j < i ==> (#[trigger] entries[j]).0 != key,
        position_of(entries, key) is None ==> forall|j: int|
            0 <= j < entries.len() ==> (#[trigger] entries[j]).0 != key,
    decreases entries.len(),
{
    if entries.len() > 0 {
        let front = entries.drop_last();
        lemma_position_of(front, key);
        assert forall|j: int| 0 <= j < front.len() implies front[j] == entries[j] by {}
        match position_of(front, key) {
            Some(i) => {
                assert(entries[i].0 == key);
            },
            None => {
                if entries.last().0 == key {
                    assert(entries[entries.len() - 1].0 == key);
                } else {
                    assert forall|j: int| 0 <= j < entries.len() implies (
                    #[trigger] entries[j]).0 != key by {
                        if j < front.len() {
                            assert(front[j].0 != key);
                        }
                    }
                }
            },
        }
        if has_key(entries, key) && position_of(entries, key) is None {
            let w = choose|i: int| 0 <= i < entries.len() && (#[trigger] entries[i]).0 == key;
            assert(entries[w].0 != key);
        }
    }
}

/// The first entry with a key is where `position_of` finds it.
pub proof fn lemma_position_is_first<V>(entries: Seq<(Seq<char>, V)>, key: Seq<char>, i: int)
    requires
        0 <= i < entries.len(),
        entries[i].0 == key,
        forall|j: int| 0 <= j < i ==> (#[trigger] entries[j]).0 != key,
    ensures
        position_of(entries, key) == Some(i),
{
    lemma_position_of(entries, key);
    assert(has_key(entries, key));
    let k = position_of(entries, key)->0;
    if k < i {
        assert(entries[k].0 != key);
    }
    if k > i {
        assert(entries[i].0 != key);
    }
}

/// Where no entry has a key, `position_of` finds none.
pub proof fn lemma_position_absent<V>(entries: Seq<(Seq<char>, V)>, key: Seq<char>)
    requires
        forall|j: int| 0 <= j < entries.len() ==> (#[trigger] entries[j]).0 != key,
    ensures
        position_of(entries, key) is None,
{
    lemma_position_of(entries, key);
}

/// Putting an entry into a sequence keeps every key that was there, adds the
/// new one, keeps distinct keys distinct and changes no other value.
pub proof fn lemma_upserted<V>(entries: Seq<(Seq<char>, V)>, key: Seq<char>, value: V)
    ensures
        has_key(upserted(entries, key, value), key),
        forall|k: Seq<char>| has_key(entries, k) ==> has_key(upserted(entries, key, value), k),
        forall|k: Seq<char>|
            has_key(upserted(entries, key, value), k) ==> k == key || has_key(entries, k),
        distinct_keys(entries) ==> distinct_keys(upserted(entries, key, value)),
        upserted(entries, key, value).len() >= entries.len(),
{
    lemma_position_of(entries, key);
    let after = upserted(entries, key, value);
    match position_of(entries, key) {
        Some(i) => {
            assert(after[i].0 == key);
            assert forall|k: Seq<char>| has_key(entries, k) implies has_key(after, k) by {
                let w = choose|j: int| 0 <= j < entries.len() && (#[trigger] entries[j]).0 == k;
                assert(after[w].0 == k);
            }
            assert forall|k: Seq<char>| has_key(after, k) implies k == key || has_key(
                entries,
                k,
            ) by {
                let w = choose|j: int| 0 <= j < after.len() && (#[trigger] after[j]).0 == k;
                assert(entries[w].0 == k);
            }
            if distinct_keys(entries) {
                assert forall|a: int, b: int| 0 <= a < b < after.len() implies (
                #[trigger] after[a]).0 != (#[trigger] after[b]).0 by {
                    assert(entries[a].0 != entries[b].0);
                }
            }
        },
        None => {
            assert(after[entries.len() as int].0 == key);
            assert forall|k: Seq<char>| has_key(entries, k) implies has_key(after, k) by {
                let w = choose|j: int| 0 <= j < entries.len() && (#[trigger] entries[j]).0 == k;
                assert(after[w].0 == k);
            }
            assert forall|k: Seq<char>| has_key(after, k) implies k == key || has_key(
                entries,
                k,
            ) by {
                let w = choose|j: int| 0 <= j < after.len() && (#[trigger] after[j]).0 == k;
                if w < entries.len() {
                    assert(entries[w].0 == k);
                }
            }
            if distinct_keys(entries) {
                assert forall|a: int, b: int| 0 <= a < b < after.len() implies (
                #[trigger] after[a]).0 != (#[trigger] after[b]).0 by {
                    if b < entries.len() {
                        assert(entries[a].0 != entries[b].0);
                    } else {
                        assert(entries[a].0 != key);
                    }
                }
            }
        },
    }
}

/// Entries with distinct keys are as many as their keys.
pub proof fn lemma_key_count<V>(entries: Seq<(Seq<char>, V)>)
    requires
        distinct_keys(entries),
    ensures
        key_set(entries).finite(),
        key_set(entries).len() == entries.len(),
    decreases entries.len(),
{
    if entries.len() == 0 {
        assert(key_set(entries) =~= Set::<Seq<char>>::empty());
    } else {
        let front = entries.drop_last();
        let last = entries.last();
        assert forall|a: int, b: int| 0 <= a < b < front.len() implies (#[trigger] front[a]).0 != (
        #[trigger] front[b]).0 by {
            assert(front[a] == entries[a] && front[b] == entries[b]);
        }
        lemma_key_count(front);
        assert(!has_key(front, last.0)) by {
            if has_key(front, last.0) {
                let w = choose|i: int| 0 <= i < front.len() && (#[trigger] front[i]).0 == last.0;
                assert(entries[w].0 != entries[entries.len() - 1].0);
                assert(front[w] == entries[w]);
            }
        }
        assert(key_set(entries) =~= key_set(front).insert(last.0)) by {
            assert forall|k: Seq<char>| has_key(entries, k) <==> (has_key(front, k) || k
                == last.0) by {
                if has_key(front, k) {
                    let w = choose|i: int| 0 <= i < front.len() && (#[trigger] front[i]).0 == k;
                    assert(entries[w].0 == k);
                }
                if k == last.0 {
                    assert(entries[entries.len() - 1].0 == k);
                }
                if has_key(entries, k) {
                    let w = choose|i: int| 0 <= i < entries.len() && (#[trigger] entries[i]).0
                        == k;
                    if w < front.len() {
                        assert(front[w].0 == k);
                    }
                }
            }
        }
    }
}

/// After an entry was put into a sequence, its key has its value, and every
/// other key has the value that it had.
pub proof fn lemma_upserted_values<V>(entries: Seq<(Seq<char>, V)>, key: Seq<char>, value: V)
    ensures
        value_at(upserted(entries, key, value), key) == Some(value),
        forall|other: Seq<char>|
            other != key ==> #[trigger] value_at(upserted(entries, key, value), other) == value_at(
                entries,
                other,
            ),
{
    let after = upserted(entries, key, value);
    lemma_position_of(entries, key);
    match position_of(entries, key) {
        Some(i) => {
            assert(after[i] == (key, value));
            assert forall|j: int| 0 <= j < i implies (#[trigger] after[j]).0 != key by {
                assert(entries[j].0 != key);
            }
            lemma_position_is_first(after, key, i);
        },
        None => {
            assert(after[entries.len() as int] == (key, value));
            assert forall|j: int| 0 <= j < entries.len() implies (#[trigger] after[j]).0
                != key by {
                assert(entries[j].0 != key);
            }
            lemma_position_is_first(after, key, entries.len() as int);
        },
    }
    assert forall|other: Seq<char>| other != key implies #[trigger] value_at(after, other)
        == value_at(entries, other) by {
        lemma_position_of(entries, other);
        match position_of(entries, other) {
            Some(k) => {
                assert(after[k] == entries[k]);
                assert forall|j: int| 0 <= j < k implies (#[trigger] after[j]).0 != other by {
                    assert(entries[j].0 != other);
                }
                lemma_position_is_first(after, other, k);
            },
            None => {
                assert forall|j: int| 0 <= j < after.len() implies (#[trigger] after[j]).0
                    != other by {
                    if j < entries.len() {
                        assert(entries[j].0 != other);
                    }
                }
                lemma_position_absent(after, other);
            },
        }
    }
}

/// Laying entries over a sequence drops no key: every key of either is a key
/// of the result, and the result has no other keys.
pub proof fn lemma_overlaid_keys<V>(entries: Seq<(Seq<char>, V)>, over: Seq<(Seq<char>, V)>)
    ensures
        forall|k: Seq<char>|
            has_key(overlaid(entries, over), k) <==> has_key(entries, k) || has_key(over, k),
        distinct_keys(entries) ==> distinct_keys(overlaid(entries, over)),
    decreases over.len(),
{
    if over.len() == 0 {
        assert forall|k: Seq<char>| !has_key(over, k) by {}
    } else {
        let front = over.drop_last();
        let last = over.last();
        lemma_overlaid_keys(entries, front);
        lemma_upserted(overlaid(entries, front), last.0, last.1);
        assert forall|k: Seq<char>| has_key(over, k) <==> has_key(front, k) || k == last.0 by {
            if has_key(front, k) {
                let w = choose|j: int| 0 <= j < front.len() && (#[trigger] front[j]).0 == k;
                assert(over[w].0 == k);
            }
            if k == last.0 {
                assert(over[over.len() - 1].0 == k);
            }
            if has_key(over, k) {
                let w = choose|j: int| 0 <= j < over.len() && (#[trigger] over[j]).0 == k;
                if w < front.len() {
                    assert(front[w].0 == k);
                }
            }
        }
    }
}

/// Laying a sequence with distinct keys over itself changes nothing.
pub proof fn lemma_overlaid_self<V>(entries: Seq<(Seq<char>, V)>, n: int)
    requires
        distinct_keys(entries),
        0 <= n <= entries.len(),
    ensures
        overlaid(entries, entries.take(n)) == entries,
    decreases n,
{
    if n > 0 {
        lemma_overlaid_self(entries, n - 1);
        assert(entries.take(n).drop_last() =~= entries.take(n - 1));
        let last = entries.take(n).last();
        assert(last == entries[n - 1]);
        lemma_position_of(entries, last.0);
        match position_of(entries, last.0) {
            Some(i) => {
                if i != n - 1 {
                    assert(entries[i].0 != entries[n - 1].0);
                }
                assert(entries.update(i, (last.0, last.1)) =~= entries);
            },
            None => {
                assert(entries[n - 1].0 != last.0);
            },
        }
    }
}

/// Putting entries with distinct keys into an empty sequence gives those
/// entries, in their order.
pub proof fn lemma_overlaid_from_empty<V>(over: Seq<(Seq<char>, V)>, n: int)
    requires
        distinct_keys(over),
        0 <= n <= over.len(),
    ensures
        overlaid(Seq::<(Seq<char>, V)>::empty(), over.take(n)) == over.take(n),
    decreases n,
{
    if n > 0 {
        lemma_overlaid_from_empty(over, n - 1);
        assert(over.take(n).drop_last() =~= over.take(n - 1));
        let front = over.take(n - 1);
        let last = over.take(n).last();
        assert(last == over[n - 1]);
        lemma_position_of(front, last.0);
        if position_of(front, last.0) is Some {
            let i = position_of(front, last.0)->0;
            assert(front[i] == over[i]);
            assert(over[i].0 != over[n - 1].0);
        }
        assert(front.push((last.0, last.1)) =~= over.take(n));
    } else {
        assert(over.take(0) =~= Seq::<(Seq<char>, V)>::empty());
    }
}

/// An empty table (`IndexMap::new`).
#[verifier::external_body]
pub(crate) fn text_table_new() -> (table: IndexMap<String, String>)
    ensures
        text_entries(table) == Seq::<(Seq<char>, Seq<char>)>::empty(),
{
    IndexMap::new()
}

/// The number of entries (`IndexMap::len`).
#[verifier::external_body]
pub(crate) fn text_table_len(table: &IndexMap<String, String>) -> (n: usize)
    ensures
        n == text_entries(*table).len(),
{
    table.len()
}

/// The entry at a position (`IndexMap::get_index`): `None` exactly when the
/// position is past the end.
#[verifier::external_body]
pub(crate) fn text_table_get_index(table: &IndexMap<String, String>, index: usize) -> (entry:
    Option<(&String, &String)>)
    ensures
        entry is Some <==> index < text_entries(*table).len(),
        entry matches Some((k, v)) ==> (k@, v@) == text_entries(*table)[index as int],
{
    table.get_index(index)
}

/// Gives `key` the value `value` (`IndexMap::insert`): a key that is present
/// keeps its position and only its value changes, a new key is added last.
#[verifier::external_body]
pub(crate) fn text_table_insert(table: &mut IndexMap<String, String>, key: String, value: String)
    ensures
        text_entries(*final(table)) == upserted(text_entries(*old(table)), key@, value@),
{
    table.insert(key, value);
}

/// An empty table of providers (`IndexMap::new`).
#[verifier::external_body]
pub(crate) fn provider_table_new() -> (table: IndexMap<String, Provider>)
    ensures
        provider_entries(table) == Seq::<(Seq<char>, ProviderView)>::empty(),
{
    IndexMap::new()
}

/// The provider stored under a key (`IndexMap::get`): that of the entry with
/// the key, `None` where no entry has it.
#[verifier::external_body]
pub(crate) fn provider_table_get<'a>(table: &'a IndexMap<String, Provider>, key: &str) -> (found:
    Option<&'a Provider>)
    ensures
        found is Some <==> position_of(provider_entries(*table), key@) is Some,
        found matches Some(p) ==> p@ == provider_entries(*table)[position_of(
            provider_entries(*table),
            key@,
        )->0].1,
{
    table.get(key)
}

/// Stores a provider under a key (`IndexMap::insert`): a key that is present
/// keeps its position and only its value changes, a new key is added last.
#[verifier::external_body]
pub(crate) fn provider_table_insert(
    table: &mut IndexMap<String, Provider>,
    key: String,
    value: Provider,
)
    ensures
        provider_entries(*final(table)) == upserted(provider_entries(*old(table)), key@, value@),
{
    table.insert(key, value);
}

/// The providers of a table, in its order (`IndexMap::into_values`).
#[verifier::external_body]
pub(crate) fn provider_table_into_values(table: IndexMap<String, Provider>) -> (values: Vec<
    Provider,
>)
    ensures
        values@.map_values(|p: Provider| p@) == values_of(provider_entries(table)),
{
    table.into_values().collect()
}

} // verus!
