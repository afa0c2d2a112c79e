//! Entries in the ascending order of their keys: how a mapping is stored.
//!
//! The order makes the keys unique, gives one stored form to each table,
//! and is the order in which a mapping is rendered.

use crate::expression::Expression;
use crate::expression::ExpressionView;
use crate::symbol::precedes;
use crate::symbol::precedes_connected;
use crate::symbol::precedes_irreflexive;
use crate::symbol::precedes_transitive;
use crate::symbol::Symbol;
use vstd::prelude::*;

verus! {

/// Whether each name comes before all that follow it.
pub open spec fn ascending(keys: Seq<Seq<char>>) -> bool {
    forall|i: int, j: int|
        0 <= i < j < keys.len() ==> precedes(#[trigger] keys[i], #[trigger] keys[j])
}

/// The keys of the entries, in their order.
pub(crate) open spec fn entry_keys<E>(entries: Seq<(Symbol, Expression<E>)>) -> Seq<Seq<char>> {
    Seq::new(entries.len(), |i: int| entries[i].0@)
}

/// An index at which the entries hold `key`, if they hold it at all.
pub(crate) open spec fn entry_index<E>(
    entries: Seq<(Symbol, Expression<E>)>,
    key: Seq<char>,
) -> int {
    choose|i: int| 0 <= i < entries.len() && entries[i].0@ == key
}

/// The table that the entries hold.
pub(crate) open spec fn entry_map<E>(entries: Seq<(Symbol, Expression<E>)>) -> Map<
    Seq<char>,
    ExpressionView<E>,
> {
    Map::new(
        |key: Seq<char>| exists|i: int| 0 <= i < entries.len() && entries[i].0@ == key,
        |key: Seq<char>| entries[entry_index(entries, key)].1@,
    )
}

/// In ascending entries each key leads to the value beside it.
pub(crate) proof fn entry_map_at<E>(entries: Seq<(Symbol, Expression<E>)>, i: int)
    requires
        ascending(entry_keys(entries)),
        0 <= i < entries.len(),
    ensures
        entry_map(entries).contains_key(entries[i].0@),
        entry_map(entries)[entries[i].0@] == entries[i].1@,
{
    let key = entries[i].0@;
    let j = entry_index(entries, key);
    let keys = entry_keys(entries);
    assert(keys[i] == key && keys[j] == key);
    precedes_irreflexive(key);
    assert(i == j);
}

/// Whether `keys` lists the keys of `table`, each once, in ascending order.
pub open spec fn lists_keys<V>(keys: Seq<Seq<char>>, table: Map<Seq<char>, V>) -> bool {
    ascending(keys) && keys.to_set() == table.dom()
}

/// Two ascending lists of the same names are one list.
pub proof fn ascending_unique(a: Seq<Seq<char>>, b: Seq<Seq<char>>)
    requires
        ascending(a),
        ascending(b),
        a.to_set() == b.to_set(),
    ensures
        a == b,
    decreases a.len(),
{
    if a.len() == 0 {
        if b.len() > 0 {
            assert(b.contains(b[0]));
            assert(a.to_set().contains(b[0]));
        }
        assert(a =~= b);
    } else {
        let x = a.last();
        assert(a.contains(x));
        assert(b.to_set().contains(x));
        let j = choose|j: int| 0 <= j < b.len() && b[j] == x;
        let y = b.last();
        assert(b.contains(y));
        assert(a.to_set().contains(y));
        let i = choose|i: int| 0 <= i < a.len() && a[i] == y;
        precedes_irreflexive(x);
        if x != y {
            assert(precedes(a[i], a[a.len() - 1]));
            assert(precedes(b[j], b[b.len() - 1]));
            precedes_transitive(x, y, x);
        }
        let a0 = a.drop_last();
        let b0 = b.drop_last();
        assert forall|k: Seq<char>| a0.to_set().contains(k) == b0.to_set().contains(k) by {
            precedes_irreflexive(k);
            if a0.contains(k) {
                let p = choose|p: int| 0 <= p < a0.len() && a0[p] == k;
                assert(precedes(a[p], a[a.len() - 1]));
                assert(a.contains(k));
                assert(b.to_set().contains(k));
                let q = choose|q: int| 0 <= q < b.len() && b[q] == k;
                assert(b0[q] == k);
            }
            if b0.contains(k) {
                let q = choose|q: int| 0 <= q < b0.len() && b0[q] == k;
                assert(precedes(b[q], b[b.len() - 1]));
                assert(b.contains(k));
                assert(a.to_set().contains(k));
                let p = choose|p: int| 0 <= p < a.len() && a[p] == k;
                assert(a0[p] == k);
            }
        }
        assert(a0.to_set() =~= b0.to_set());
        assert forall|p: int, q: int| 0 <= p < q < a0.len() implies precedes(
            #[trigger] a0[p],
            #[trigger] a0[q],
        ) by {
            assert(precedes(a[p], a[q]));
        }
        assert forall|p: int, q: int| 0 <= p < q < b0.len() implies precedes(
            #[trigger] b0[p],
            #[trigger] b0[q],
        ) by {
            assert(precedes(b[p], b[q]));
        }
        ascending_unique(a0, b0);
        assert(a =~= a0.push(x));
        assert(b =~= b0.push(y));
    }
}

/// The keys of ascending entries list the keys of their table.
pub(crate) proof fn entry_keys_listed<E>(entries: Seq<(Symbol, Expression<E>)>)
    requires
        ascending(entry_keys(entries)),
    ensures
        lists_keys(entry_keys(entries), entry_map(entries)),
{
    let keys = entry_keys(entries);
    let table = entry_map(entries);
    assert forall|k: Seq<char>| keys.to_set().contains(k) == table.dom().contains(k) by {
        if keys.contains(k) {
            let i = choose|i: int| 0 <= i < keys.len() && keys[i] == k;
            assert(entries[i].0@ == k);
        }
        if table.contains_key(k) {
            let i = choose|i: int| 0 <= i < entries.len() && entries[i].0@ == k;
            assert(keys[i] == k);
        }
    }
    assert(keys.to_set() =~= table.dom());
}

/// The number of entries whose key comes before `key`.
pub(crate) fn position<E>(entries: &Vec<(Symbol, Expression<E>)>, key: &Symbol) -> (at: usize)
    requires
        ascending(entry_keys(entries@)),
    ensures
        at <= entries@.len(),
        forall|i: int| 0 <= i < at ==> precedes(#[trigger] entries@[i].0@, key@),
        forall|i: int|
            at <= i < entries@.len() ==> !precedes(#[trigger] entries@[i].0@, key@),
{
    let ghost keys = entry_keys(entries@);
    let mut low: usize = 0;
    let mut high: usize = entries.len();
    while low < high
        invariant
            low <= high <= entries@.len(),
            keys == entry_keys(entries@),
            ascending(keys),
            forall|i: int| 0 <= i < low ==> precedes(#[trigger] entries@[i].0@, key@),
            forall|i: int|
                high <= i < entries@.len() ==> !precedes(
                    #[trigger] entries@[i].0@,
                    key@,
                ),
        decreases high - low,
    {
        let middle = low + (high - low) / 2;
        if entries[middle].0.is_before(key) {
            proof {
                assert forall|i: int| 0 <= i < middle + 1 implies precedes(
                    #[trigger] entries@[i].0@,
                    key@,
                ) by {
                    if i < middle {
                        assert(precedes(keys[i], keys[middle as int]));
                        precedes_transitive(keys[i], keys[middle as int], key@);
                    }
                }
            }
            low = middle + 1;
        } else {
            proof {
                assert forall|i: int| middle <= i < entries@.len() implies !precedes(
                    #[trigger] entries@[i].0@,
                    key@,
                ) by {
                    if middle < i && precedes(entries@[i].0@, key@) {
                        assert(precedes(keys[middle as int], keys[i]));
                        precedes_transitive(keys[middle as int], keys[i], key@);
                    }
                }
            }
            high = middle;
        }
    }
    low
}

/// A table that agrees with ascending entries, key by key, is their table.
pub(crate) proof fn entry_map_is<E>(
    entries: Seq<(Symbol, Expression<E>)>,
    table: Map<Seq<char>, ExpressionView<E>>,
)
    requires
        ascending(entry_keys(entries)),
        forall|i: int|
            0 <= i < entries.len() ==> table.contains_key(#[trigger] entries[i].0@)
                && table[entries[i].0@] == entries[i].1@,
        forall|key: Seq<char>| #[trigger]
            table.contains_key(key) ==> exists|i: int|
                0 <= i < entries.len() && entries[i].0@ == key,
    ensures
        entry_map(entries) == table,
{
    assert forall|key: Seq<char>| #[trigger]
        entry_map(entries).contains_key(key) implies entry_map(entries)[key] == table[key]
        && table.contains_key(key) by {
        entry_map_at(entries, entry_index(entries, key));
    }
    assert(entry_map(entries) =~= table);
}

/// A new value in the place of an entry stores the value for its key.
proof fn entry_replaced<E>(
    before: Seq<(Symbol, Expression<E>)>,
    at: int,
    key: Symbol,
    value: Expression<E>,
)
    requires
        ascending(entry_keys(before)),
        0 <= at < before.len(),
        before[at].0@ == key@,
    ensures
        ascending(entry_keys(before.update(at, (key, value)))),
        entry_map(before.update(at, (key, value))) == entry_map(before).insert(key@, value@),
{
    let after = before.update(at, (key, value));
    let table = entry_map(before).insert(key@, value@);
    assert(entry_keys(after) =~= entry_keys(before));
    assert forall|i: int| 0 <= i < after.len() implies table.contains_key(#[trigger] after[i].0@)
        && table[after[i].0@] == after[i].1@ by {
        if i != at {
            entry_map_at(before, i);
            precedes_irreflexive(key@);
            assert(entry_keys(before)[i] == before[i].0@ && entry_keys(before)[at] == key@);
        }
    }
    assert forall|k: Seq<char>| #[trigger] table.contains_key(k) implies exists|i: int|
        0 <= i < after.len() && after[i].0@ == k by {
        let i = if k == key@ {
            at
        } else {
            entry_index(before, k)
        };
        assert(after[i].0@ == k);
    }
    entry_map_is(after, table);
}

/// A new entry between the keys before its own and the keys after its own
/// stores its value for its key.
proof fn entry_inserted<E>(
    before: Seq<(Symbol, Expression<E>)>,
    at: int,
    key: Symbol,
    value: Expression<E>,
)
    requires
        ascending(entry_keys(before)),
        0 <= at <= before.len(),
        forall|i: int| 0 <= i < at ==> precedes(#[trigger] before[i].0@, key@),
        forall|i: int| at <= i < before.len() ==> precedes(key@, #[trigger] before[i].0@),
    ensures
        ascending(entry_keys(before.insert(at, (key, value)))),
        entry_map(before.insert(at, (key, value))) == entry_map(before).insert(key@, value@),
{
    let after = before.insert(at, (key, value));
    let table = entry_map(before).insert(key@, value@);
    let keys = entry_keys(before);
    let new_keys = entry_keys(after);
    precedes_irreflexive(key@);
    assert forall|i: int, j: int| 0 <= i < j < new_keys.len() implies precedes(
        #[trigger] new_keys[i],
        #[trigger] new_keys[j],
    ) by {
        let old_i = if i < at {
            i
        } else {
            i - 1
        };
        let old_j = if j < at {
            j
        } else {
            j - 1
        };
        if i != at && j != at {
            assert(precedes(keys[old_i], keys[old_j]));
        } else if i == at {
            assert(new_keys[j] == before[old_j].0@);
        } else {
            assert(new_keys[i] == before[old_i].0@);
        }
    }
    assert forall|i: int| 0 <= i < after.len() implies table.contains_key(#[trigger] after[i].0@)
        && table[after[i].0@] == after[i].1@ by {
        if i < at {
            entry_map_at(before, i);
            assert(precedes(before[i].0@, key@));
        } else if i > at {
            entry_map_at(before, i - 1);
            assert(precedes(key@, before[i - 1].0@));
        }
    }
    assert forall|k: Seq<char>| #[trigger] table.contains_key(k) implies exists|i: int|
        0 <= i < after.len() && after[i].0@ == k by {
        if k == key@ {
            assert(after[at].0@ == k);
        } else {
            let i = entry_index(before, k);
            if i < at {
                assert(after[i].0@ == k);
            } else {
                assert(after[i + 1].0@ == k);
            }
        }
    }
    entry_map_is(after, table);
}

/// Stores `value` for `key`, in place of what was stored for it.
pub(crate) fn store<E>(
    entries: &mut Vec<(Symbol, Expression<E>)>,
    key: Symbol,
    value: Expression<E>,
)
    requires
        ascending(entry_keys(old(entries)@)),
    ensures
        ascending(entry_keys(final(entries)@)),
        entry_map(final(entries)@) == entry_map(old(entries)@).insert(key@, value@),
{
    let at = position(entries, &key);
    if at < entries.len() && entries[at].0 == key {
        proof {
            entry_replaced(entries@, at as int, key, value);
        }
        entries.set(at, (key, value));
    } else {
        proof {
            let keys = entry_keys(entries@);
            assert forall|i: int| at <= i < entries@.len() implies precedes(
                key@,
                #[trigger] entries@[i].0@,
            ) by {
                if i > at {
                    assert(precedes(keys[at as int], keys[i]));
                }
                if entries@[i].0@ != key@ {
                    precedes_connected(key@, entries@[i].0@);
                }
            }
            entry_inserted(entries@, at as int, key, value);
        }
        entries.insert(at, (key, value));
    }
}

} // verus!
