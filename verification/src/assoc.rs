//! Tables keyed by strings, kept as vectors of pairs in the order of their
//! keys. A key occurs at most once in a table that was built by `insert`
//! alone, and walking the vector visits the keys in ascending order.

use crate::text::{
    chars_of, lemma_precedes_irreflexive, lemma_precedes_total, lemma_precedes_transitive, less,
    precedes, same,
};
use vstd::prelude::*;

verus! {

/// The index of the first entry at or after `i` whose key is `key`.
pub open spec fn index_from<V>(entries: Seq<(Seq<char>, V)>, key: Seq<char>, i: int) -> Option<int>
    decreases entries.len() - i,
{
    if i < 0 || i >= entries.len() {
        None
    } else if entries[i].0 == key {
        Some(i)
    } else {
        index_from(entries, key, i + 1)
    }
}

/// The index of the first entry whose key is `key`.
pub open spec fn index<V>(entries: Seq<(Seq<char>, V)>, key: Seq<char>) -> Option<int> {
    index_from(entries, key, 0)
}

/// The value stored under `key`.
pub open spec fn lookup<V>(entries: Seq<(Seq<char>, V)>, key: Seq<char>) -> Option<V> {
    match index(entries, key) {
        Some(i) => Some(entries[i].1),
        None => None,
    }
}

/// Whether the table has an entry under `key`.
pub open spec fn has_key<V>(entries: Seq<(Seq<char>, V)>, key: Seq<char>) -> bool {
    index(entries, key) is Some
}

/// The index of the first entry at or after `i` whose key does not precede
/// `key`, or the length.
pub open spec fn slot_from<V>(entries: Seq<(Seq<char>, V)>, key: Seq<char>, i: int) -> int
    decreases entries.len() - i,
{
    if 0 <= i < entries.len() && precedes(entries[i].0, key) {
        slot_from(entries, key, i + 1)
    } else {
        i
    }
}

/// The table with `value` stored under `key`: an entry with that key is
/// replaced, a new one is put where the order of the keys wants it.
pub open spec fn inserted<V>(entries: Seq<(Seq<char>, V)>, key: Seq<char>, value: V) -> Seq<
    (Seq<char>, V),
> {
    let at = slot_from(entries, key, 0);
    if 0 <= at < entries.len() && entries[at].0 == key {
        entries.update(at, (key, value))
    } else if 0 <= at <= entries.len() {
        entries.insert(at, (key, value))
    } else {
        entries
    }
}

/// The table without the first entry under `key`.
pub open spec fn removed<V>(entries: Seq<(Seq<char>, V)>, key: Seq<char>) -> Seq<(Seq<char>, V)> {
    match index(entries, key) {
        Some(i) => if 0 <= i < entries.len() {
            entries.remove(i)
        } else {
            entries
        },
        None => entries,
    }
}

/// The keys ascend strictly.
pub open spec fn ascending<V>(entries: Seq<(Seq<char>, V)>) -> bool {
    forall|i: int, j: int|
        0 <= i < j < entries.len() ==> precedes(#[trigger] entries[i].0, #[trigger] entries[j].0)
}

/// What `index_from` finds is the first entry under the key, and it finds one
/// where there is one.
pub proof fn lemma_index_from<V>(entries: Seq<(Seq<char>, V)>, key: Seq<char>, i: int)
    requires
        0 <= i,
    ensures
        match index_from(entries, key, i) {
            Some(k) => i <= k < entries.len() && entries[k].0 == key && forall|j: int|
                i <= j < k ==> (#[trigger] entries[j]).0 != key,
            None => forall|j: int| i <= j < entries.len() ==> (#[trigger] entries[j]).0 != key,
        },
    decreases entries.len() - i,
{
    if i < entries.len() && entries[i].0 != key {
        lemma_index_from(entries, key, i + 1);
    }
}

/// The slot of a key lies behind the entries whose keys precede it and at no
/// other.
pub proof fn lemma_slot_from<V>(entries: Seq<(Seq<char>, V)>, key: Seq<char>, i: int)
    requires
        0 <= i <= entries.len(),
    ensures
        i <= slot_from(entries, key, i) <= entries.len(),
        forall|j: int|
            i <= j < slot_from(entries, key, i) ==> precedes((#[trigger] entries[j]).0, key),
        slot_from(entries, key, i) < entries.len() ==> !precedes(
            entries[slot_from(entries, key, i)].0,
            key,
        ),
    decreases entries.len() - i,
{
    if i < entries.len() && precedes(entries[i].0, key) {
        lemma_slot_from(entries, key, i + 1);
    }
}

/// What was stored under a key is found under it.
pub proof fn lemma_lookup_inserted_same<V>(entries: Seq<(Seq<char>, V)>, key: Seq<char>, value: V)
    ensures
        lookup(inserted(entries, key, value), key) == Some(value),
{
    let at = slot_from(entries, key, 0);
    lemma_slot_from(entries, key, 0);
    let after = inserted(entries, key, value);
    lemma_index_from(after, key, 0);
    assert(after[at].0 == key);
    assert forall|j: int| 0 <= j < at implies (#[trigger] after[j]).0 != key by {
        assert(after[j] == entries[j]);
        assert(precedes(entries[j].0, key));
        lemma_precedes_irreflexive(key);
    }
}

/// Storing under one key leaves what is found under another unchanged.
pub proof fn lemma_lookup_inserted_other<V>(
    entries: Seq<(Seq<char>, V)>,
    key: Seq<char>,
    value: V,
    other: Seq<char>,
)
    requires
        other != key,
    ensures
        lookup(inserted(entries, key, value), other) == lookup(entries, other),
{
    let at = slot_from(entries, key, 0);
    lemma_slot_from(entries, key, 0);
    let after = inserted(entries, key, value);
    lemma_index_from(after, other, 0);
    lemma_index_from(entries, other, 0);
    if at < entries.len() && entries[at].0 == key {
        assert forall|j: int| 0 <= j < entries.len() implies ((#[trigger] after[j]).0 == other <==> (
        #[trigger] entries[j]).0 == other) by {}
        assert forall|j: int| 0 <= j < entries.len() && j != at implies #[trigger] after[j]
            == entries[j] by {}
        match index(entries, other) {
            Some(k) => {
                assert(after[k] == entries[k]);
                match index(after, other) {
                    Some(m) => {
                        if m < k {
                            assert(entries[m].0 == other);
                        }
                        if k < m {
                            assert(after[k].0 == other);
                        }
                    },
                    None => {
                        assert(after[k].0 == other);
                    },
                }
            },
            None => {
                match index(after, other) {
                    Some(m) => {
                        assert(entries[m].0 == other);
                    },
                    None => {},
                }
            },
        }
    } else {
        assert forall|j: int| 0 <= j < at implies #[trigger] after[j] == entries[j] by {}
        assert forall|j: int| at < j < after.len() implies #[trigger] after[j] == entries[j
            - 1] by {}
        match index(entries, other) {
            Some(k) => {
                let k2 = if k < at {
                    k
                } else {
                    k + 1
                };
                assert(after[k2] == entries[k]);
                match index(after, other) {
                    Some(m) => {
                        if m < k2 {
                            if m < at {
                                assert(entries[m].0 == other);
                            } else {
                                assert(m != at);
                                assert(entries[m - 1].0 == other);
                            }
                        }
                        if k2 < m {
                            assert(after[k2].0 == other);
                        }
                    },
                    None => {
                        assert(after[k2].0 == other);
                    },
                }
            },
            None => {
                match index(after, other) {
                    Some(m) => {
                        if m < at {
                            assert(entries[m].0 == other);
                        } else {
                            assert(m != at);
                            assert(entries[m - 1].0 == other);
                        }
                    },
                    None => {},
                }
            },
        }
    }
}

/// Storing a value keeps the keys in ascending order.
pub proof fn lemma_inserted_ascending<V>(entries: Seq<(Seq<char>, V)>, key: Seq<char>, value: V)
    requires
        ascending(entries),
    ensures
        ascending(inserted(entries, key, value)),
{
    let at = slot_from(entries, key, 0);
    lemma_slot_from(entries, key, 0);
    let after = inserted(entries, key, value);
    if at < entries.len() && entries[at].0 == key {
        assert forall|i: int, j: int| 0 <= i < j < after.len() implies precedes(
            #[trigger] after[i].0,
            #[trigger] after[j].0,
        ) by {
            assert(after[i].0 == entries[i].0);
            assert(after[j].0 == entries[j].0);
        }
    } else {
        assert forall|i: int, j: int| 0 <= i < j < after.len() implies precedes(
            #[trigger] after[i].0,
            #[trigger] after[j].0,
        ) by {
            let a = if i < at {
                i
            } else {
                i - 1
            };
            let b = if j < at {
                j
            } else {
                j - 1
            };
            if i == at {
                // the new key against a later, older one
                assert(after[j] == entries[j - 1]);
                let first = entries[at].0;
                assert(!precedes(first, key));
                if !precedes(key, first) {
                    lemma_precedes_total(first, key);
                }
                if j - 1 > at {
                    assert(precedes(entries[at].0, entries[j - 1].0));
                    lemma_precedes_transitive(key, first, entries[j - 1].0);
                }
            } else if j == at {
                assert(after[i] == entries[i]);
                assert(precedes(entries[i].0, key));
            } else {
                assert(after[i] == entries[a]);
                assert(after[j] == entries[b]);
                assert(precedes(entries[a].0, entries[b].0));
            }
        }
    }
}

/// A table in which no key occurs twice holds nothing under a key that was
/// removed.
pub proof fn lemma_lookup_removed<V>(entries: Seq<(Seq<char>, V)>, key: Seq<char>)
    requires
        ascending(entries),
    ensures
        lookup(removed(entries, key), key) is None,
        ascending(removed(entries, key)),
{
    lemma_index_from(entries, key, 0);
    let after = removed(entries, key);
    lemma_index_from(after, key, 0);
    match index(entries, key) {
        Some(at) => {
            assert forall|j: int| 0 <= j < after.len() implies (#[trigger] after[j]).0 != key by {
                let k = if j < at {
                    j
                } else {
                    j + 1
                };
                assert(after[j] == entries[k]);
                if entries[k].0 == key {
                    lemma_precedes_irreflexive(key);
                    if k < at {
                        assert(precedes(entries[k].0, entries[at].0));
                    } else {
                        assert(precedes(entries[at].0, entries[k].0));
                    }
                }
            }
            assert forall|i: int, j: int| 0 <= i < j < after.len() implies precedes(
                #[trigger] after[i].0,
                #[trigger] after[j].0,
            ) by {
                let a = if i < at {
                    i
                } else {
                    i + 1
                };
                let b = if j < at {
                    j
                } else {
                    j + 1
                };
                assert(after[i] == entries[a]);
                assert(after[j] == entries[b]);
                assert(precedes(entries[a].0, entries[b].0));
            }
        },
        None => {},
    }
}

/// Storing keeps the keys in ascending order, whatever is stored where.
pub proof fn lemma_inserting_keeps_order<V>()
    ensures
        forall|entries: Seq<(Seq<char>, V)>, key: Seq<char>, value: V|
            ascending(entries) ==> ascending(#[trigger] inserted(entries, key, value)),
{
    assert forall|entries: Seq<(Seq<char>, V)>, key: Seq<char>, value: V|
        ascending(entries) implies ascending(#[trigger] inserted(entries, key, value)) by {
        lemma_inserted_ascending(entries, key, value);
    }
}

/// The table `values` with the entries of `given` from index `i` on stored
/// in it one after the other: of two entries under one key the later stays.
pub open spec fn inserted_all<V>(given: Seq<(Seq<char>, V)>, i: int, values: Seq<(Seq<char>, V)>)
    -> Seq<(Seq<char>, V)>
    decreases given.len() - i,
{
    if i < 0 || i >= given.len() {
        values
    } else {
        inserted_all(given, i + 1, inserted(values, given[i].0, given[i].1))
    }
}

/// Storing entries one after the other keeps the keys in ascending order.
pub proof fn lemma_inserted_all_ascending<V>(
    given: Seq<(Seq<char>, V)>,
    i: int,
    values: Seq<(Seq<char>, V)>,
)
    requires
        ascending(values),
    ensures
        ascending(inserted_all(given, i, values)),
    decreases given.len() - i,
{
    if 0 <= i < given.len() {
        lemma_inserted_ascending(values, given[i].0, given[i].1);
        lemma_inserted_all_ascending(given, i + 1, inserted(values, given[i].0, given[i].1));
    }
}

/// Each entry of a table after an insertion is the new entry or one of the
/// entries that were there.
pub proof fn lemma_inserted_entries<V>(entries: Seq<(Seq<char>, V)>, key: Seq<char>, value: V)
    ensures
        forall|i: int|
            0 <= i < inserted(entries, key, value).len() ==> {
                let entry = #[trigger] inserted(entries, key, value)[i];
                entry == (key, value) || entries.contains(entry)
            },
{
    let at = slot_from(entries, key, 0);
    lemma_slot_from(entries, key, 0);
    let after = inserted(entries, key, value);
    assert forall|i: int| 0 <= i < after.len() implies {
        let entry = #[trigger] after[i];
        entry == (key, value) || entries.contains(entry)
    } by {
        if at < entries.len() && entries[at].0 == key {
            if i != at {
                assert(after[i] == entries[i]);
            }
        } else if i < at {
            assert(after[i] == entries[i]);
        } else if i > at {
            assert(after[i] == entries[i - 1]);
        }
    }
}

/// The index of the first entry under `key`.
pub fn position<V: DeepView>(entries: &Vec<(String, V)>, key: &Vec<char>) -> (r: Option<usize>)
    ensures
        match r {
            Some(i) => index(entries.deep_view(), key@) == Some(i as int) && i < entries.len(),
            None => index(entries.deep_view(), key@) is None,
        },
{
    let mut i: usize = 0;
    while i < entries.len()
        invariant
            i <= entries.len(),
            index(entries.deep_view(), key@) == index_from(entries.deep_view(), key@, i as int),
        decreases entries.len() - i,
    {
        let k = chars_of(entries[i].0.as_str());
        assert(entries.deep_view()[i as int].0 == entries[i as int].0@);
        if same(&k, key) {
            return Some(i);
        }
        i += 1;
    }
    None
}

/// Whether the table has an entry under `key`.
pub fn contains_key<V: DeepView>(entries: &Vec<(String, V)>, key: &str) -> (r: bool)
    ensures
        r == has_key(entries.deep_view(), key@),
{
    let k = chars_of(key);
    position(entries, &k).is_some()
}

/// Stores `value` under `key`, in place of an entry with that key if there is
/// one.
pub fn insert<V: DeepView>(entries: &mut Vec<(String, V)>, key: String, value: V)
    ensures
        final(entries).deep_view() == inserted(
            old(entries).deep_view(),
            key@,
            value.deep_view(),
        ),
        ascending(old(entries).deep_view()) ==> ascending(final(entries).deep_view()),
{
    let ghost before = entries.deep_view();
    proof {
        if ascending(before) {
            lemma_inserted_ascending(before, key@, value.deep_view());
        }
    }
    let k = chars_of(key.as_str());
    let mut i: usize = 0;
    while i < entries.len()
        invariant
            i <= entries.len(),
            entries.deep_view() == before,
            k@ == key@,
            slot_from(before, key@, 0) == slot_from(before, key@, i as int),
        ensures
            i <= entries.len(),
            entries.deep_view() == before,
            i == slot_from(before, key@, 0),
        decreases entries.len() - i,
    {
        let current = chars_of(entries[i].0.as_str());
        assert(before[i as int].0 == entries[i as int].0@);
        if !less(&current, &k) {
            break ;
        }
        i += 1;
    }
    let ghost view = value.deep_view();
    if i < entries.len() {
        let current = chars_of(entries[i].0.as_str());
        assert(before[i as int].0 == entries[i as int].0@);
        if same(&current, &k) {
            entries.remove(i);
            entries.insert(i, (key, value));
            assert(entries.deep_view() =~= before.update(i as int, (key@, view)));
            return ;
        }
    }
    entries.insert(i, (key, value));
    assert(entries.deep_view() =~= before.insert(i as int, (key@, view)));
}

/// Takes the first entry under `key` out of the table.
pub fn remove<V: DeepView>(entries: &mut Vec<(String, V)>, key: &Vec<char>)
    ensures
        final(entries).deep_view() == removed(old(entries).deep_view(), key@),
        ascending(old(entries).deep_view()) ==> ascending(final(entries).deep_view()),
{
    let ghost before = entries.deep_view();
    proof {
        if ascending(before) {
            lemma_lookup_removed(before, key@);
        }
    }
    match position(entries, key) {
        Some(i) => {
            entries.remove(i);
            assert(entries.deep_view() =~= before.remove(i as int));
        },
        None => {},
    }
}

} // verus!
