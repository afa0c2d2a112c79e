//! What holds of every mapping, whatever it was built from.

use crate::builtins::captured;
use crate::builtins::constructed;
use crate::builtins::construction;
use crate::builtins::first_offender;
use crate::builtins::is_first_offender;
use crate::builtins::keys_are_symbols;
use crate::entries::ascending_unique;
use crate::entries::lists_keys;
use crate::error::ErrorKind;
use crate::error::ErrorView;
use crate::expression::clones_are_equal;
use crate::expression::ExpressionView;
use crate::hash_map::clone_of_map_is_equal;
use crate::hash_map::indexed;
use crate::hash_map::is_clone_of_map;
use crate::render::lines;
use crate::render::rendered;
use crate::render::right_aligned;
use crate::render::sorted_keys;
use crate::render::widest;
use crate::symbol::byte_len;
use crate::symbol::byte_len_bounds;
use vstd::prelude::*;

verus! {

/// Whether the argument at the even position `position` is the symbol
/// `key`.
pub open spec fn is_key_at<E>(
    arguments: Seq<ExpressionView<E>>,
    position: int,
    key: Seq<char>,
) -> bool {
    &&& 0 <= position < arguments.len()
    &&& position % 2 == 0
    &&& arguments[position] == ExpressionView::<E>::Symbol(key)
}

/// The keys of a constructed table are the symbols at the even positions of
/// the arguments, and no others.
pub proof fn constructed_keys<E>(arguments: Seq<ExpressionView<E>>, key: Seq<char>)
    requires
        arguments.len() % 2 == 0,
        keys_are_symbols(arguments),
    ensures
        constructed(arguments).contains_key(key) <==> exists|i: int|
            is_key_at(arguments, i, key),
    decreases arguments.len(),
{
    if arguments.len() >= 2 {
        let before = arguments.len() - 2;
        let rest = arguments.take(before);
        assert(arguments[before] is Symbol);
        assert forall|i: int|
            0 <= i < rest.len() && i % 2 == 0 implies #[trigger] rest[i] is Symbol by {
            assert(arguments[i] is Symbol);
        }
        constructed_keys(rest, key);
        if constructed(arguments).contains_key(key) {
            if arguments[before]->Symbol_0 == key {
                assert(is_key_at(arguments, before, key));
            } else {
                let i = choose|i: int| is_key_at(rest, i, key);
                assert(is_key_at(arguments, i, key));
            }
        }
        if exists|i: int| is_key_at(arguments, i, key) {
            let i = choose|i: int| is_key_at(arguments, i, key);
            if i < before {
                assert(is_key_at(rest, i, key));
            }
        }
    }
}

/// Last write wins: a constructed table holds, for the key of each pair that
/// no later pair repeats, the value of that pair.
pub proof fn constructed_holds_last_value<E>(arguments: Seq<ExpressionView<E>>, position: int)
    requires
        arguments.len() % 2 == 0,
        keys_are_symbols(arguments),
        0 <= position < arguments.len(),
        position % 2 == 0,
        forall|later: int|
            position < later < arguments.len() && later % 2 == 0 ==> #[trigger] arguments[later]
                != arguments[position],
    ensures
        construction(arguments) == Ok::<_, ErrorView>(constructed(arguments)),
        indexed(constructed(arguments), arguments[position]) == Ok::<_, ErrorView>(
            arguments[position + 1],
        ),
    decreases arguments.len(),
{
    let before = arguments.len() - 2;
    let rest = arguments.take(before);
    assert(arguments[position] is Symbol);
    assert(arguments[before] is Symbol);
    if position < before {
        assert(arguments[before] != arguments[position]);
        assert forall|i: int|
            0 <= i < rest.len() && i % 2 == 0 implies #[trigger] rest[i] is Symbol by {
            assert(arguments[i] is Symbol);
        }
        assert forall|later: int|
            position < later < rest.len() && later % 2 == 0 implies #[trigger] rest[later]
            != rest[position] by {
            assert(arguments[later] != arguments[position]);
        }
        constructed_holds_last_value(rest, position);
    }
}

/// The last even position that holds the key at `position`.
pub proof fn last_occurrence<E>(arguments: Seq<ExpressionView<E>>, position: int) -> (last: int)
    requires
        0 <= position < arguments.len(),
        position % 2 == 0,
    ensures
        position <= last < arguments.len(),
        last % 2 == 0,
        arguments[last] == arguments[position],
        forall|later: int|
            last < later < arguments.len() && later % 2 == 0 ==> #[trigger] arguments[later]
                != arguments[position],
    decreases arguments.len() - position,
{
    if exists|later: int|
        position < later < arguments.len() && later % 2 == 0 && #[trigger] arguments[later]
            == arguments[position] {
        let later = choose|later: int|
            position < later < arguments.len() && later % 2 == 0 && #[trigger] arguments[later]
                == arguments[position];
        last_occurrence(arguments, later)
    } else {
        position
    }
}

/// Calling a built mapping with a key of its construction gives a clone of
/// the value that was supplied for that key last: the value behind `last`,
/// the last position that holds the key. Where clones are equal to what
/// they were cloned from, it gives that value.
pub proof fn call_after_construction<E: Clone>(
    arguments: Seq<ExpressionView<E>>,
    built: Map<Seq<char>, ExpressionView<E>>,
    position: int,
) -> (last: int)
    requires
        construction(arguments) matches Ok(table) && is_clone_of_map(built, table),
        0 <= position < arguments.len(),
        position % 2 == 0,
    ensures
        position <= last < arguments.len(),
        last % 2 == 0,
        arguments[last] == arguments[position],
        forall|later: int|
            last < later < arguments.len() && later % 2 == 0 ==> #[trigger] arguments[later]
                != arguments[position],
        indexed(built, arguments[position]) matches Ok(found) && found.is_clone_of(
            arguments[last + 1],
        ),
        clones_are_equal::<E>() ==> indexed(built, arguments[position]) == Ok::<_, ErrorView>(
            arguments[last + 1],
        ),
{
    let last = last_occurrence(arguments, position);
    constructed_holds_last_value(arguments, last);
    assert(arguments[last] is Symbol);
    assert(constructed(arguments).contains_key(arguments[last]->Symbol_0));
    if clones_are_equal::<E>() {
        clone_of_map_is_equal(built, constructed(arguments));
    }
    last
}

/// Calling a mapping with a symbol that is not among its keys is a key
/// error, whose message names the symbol.
pub proof fn missing_key_fails<E>(table: Map<Seq<char>, ExpressionView<E>>, key: Seq<char>)
    requires
        !table.contains_key(key),
    ensures
        indexed(table, ExpressionView::Symbol(key)) matches Err(failure) && ({
            &&& failure == (ErrorView::KeyMissing { key })
            &&& failure.kind() == ErrorKind::KeyError
            &&& failure.message() == "Key "@ + key + " missing in hash map"@
        }),
{
}

/// An odd number of arguments is an arity error, whatever the arguments
/// are.
pub proof fn odd_construction_fails<E>(arguments: Seq<ExpressionView<E>>)
    requires
        arguments.len() % 2 == 1,
    ensures
        construction(arguments) matches Err(failure) && failure.kind() == ErrorKind::ArityError,
{
}

/// Among an even number of arguments, a key that is no symbol is a type
/// error. The error gives the position of the first such key and shows its
/// rendering.
pub proof fn key_of_wrong_type_fails<E>(arguments: Seq<ExpressionView<E>>, position: int)
    requires
        arguments.len() % 2 == 0,
        0 <= position < arguments.len(),
        position % 2 == 0,
        !(arguments[position] is Symbol),
    ensures
        construction(arguments) matches Err(failure) && ({
            let first = first_offender(arguments);
            &&& failure.kind() == ErrorKind::TypeError
            &&& is_first_offender(arguments, first)
            &&& first <= position
            &&& failure == (ErrorView::MappingKeyType {
                position: first as nat,
                text: arguments[first].text(),
            })
        }),
{
    let first = least_offender(arguments, position);
    assert(is_first_offender(arguments, first));
    assert(is_first_offender(arguments, first_offender(arguments)));
    assert(first_offender(arguments) == first);
}

/// The first even position at or before `position` whose argument is no
/// symbol.
proof fn least_offender<E>(arguments: Seq<ExpressionView<E>>, position: int) -> (first: int)
    requires
        0 <= position < arguments.len(),
        position % 2 == 0,
        !(arguments[position] is Symbol),
    ensures
        is_first_offender(arguments, first),
        first <= position,
    decreases position,
{
    if exists|i: int| 0 <= i < position && i % 2 == 0 && !(#[trigger] arguments[i] is Symbol) {
        let i = choose|i: int|
            0 <= i < position && i % 2 == 0 && !(#[trigger] arguments[i] is Symbol);
        least_offender(arguments, i)
    } else {
        position
    }
}

/// A captured mapping answers for every symbol that was bound when it was
/// captured, with a clone of the value the symbol was bound to then; where
/// clones are equal to what they were cloned from, with that value. The
/// mapping owns its entries: no later binding in the environment reaches
/// them.
pub proof fn call_after_capture<E: Clone>(
    bindings: Map<Seq<char>, ExpressionView<E>>,
    snapshot: Map<Seq<char>, ExpressionView<E>>,
    symbol: Seq<char>,
)
    requires
        captured(0, bindings) matches Ok(table) && is_clone_of_map(snapshot, table),
        bindings.contains_key(symbol),
    ensures
        indexed(snapshot, ExpressionView::Symbol(symbol)) matches Ok(found) && found.is_clone_of(
            bindings[symbol],
        ),
        clones_are_equal::<E>() ==> indexed(snapshot, ExpressionView::Symbol(symbol)) == Ok::<
            _,
            ErrorView,
        >(bindings[symbol]),
{
    if clones_are_equal::<E>() {
        clone_of_map_is_equal(snapshot, bindings);
    }
}

/// Only one list holds the keys of a table in ascending order: the text
/// form of a mapping does not depend on how its entries are stored.
pub proof fn sorted_keys_unique<V>(table: Map<Seq<char>, V>, keys: Seq<Seq<char>>)
    requires
        lists_keys(keys, table),
    ensures
        sorted_keys(table) == keys,
{
    assert(lists_keys(sorted_keys(table), table));
    ascending_unique(sorted_keys(table), keys);
}

/// A mapping without entries renders as the empty text.
pub proof fn rendered_empty<E>()
    ensures
        rendered(Map::<Seq<char>, ExpressionView<E>>::empty()) == Seq::<char>::empty(),
{
    let table = Map::<Seq<char>, ExpressionView<E>>::empty();
    let none = Seq::<Seq<char>>::empty();
    assert(none.to_set() =~= table.dom());
    sorted_keys_unique(table, none);
    assert(lines(table, none, widest(none)) =~= Seq::<Seq<char>>::empty());
}

/// No key is longer than the widest.
pub proof fn widest_bounds(keys: Seq<Seq<char>>, i: int)
    requires
        0 <= i < keys.len(),
    ensures
        keys[i].len() <= byte_len(keys[i]) <= widest(keys),
    decreases keys.len(),
{
    byte_len_bounds(keys[i]);
    if i < keys.len() - 1 {
        widest_bounds(keys.drop_last(), i);
    }
}

/// The arrows stand in one column: in each line of a text form the key ends
/// at the width of the widest key, the arrow follows, and the rendering of
/// the value ends the line.
pub proof fn arrows_aligned<E>(table: Map<Seq<char>, ExpressionView<E>>, i: int)
    requires
        0 <= i < sorted_keys(table).len(),
    ensures
        ({
            let keys = sorted_keys(table);
            let width = widest(keys);
            let column = width as int;
            let line = lines(table, keys, width)[i];
            &&& keys[i].len() <= width
            &&& line.len() == column + 4 + table[keys[i]].text().len()
            &&& line.subrange(0, column) == right_aligned(keys[i], width)
            &&& line.subrange(column - keys[i].len(), column) == keys[i]
            &&& line.subrange(column, column + 4) == " -> "@
            &&& line.skip(column + 4) == table[keys[i]].text()
        }),
{
    let keys = sorted_keys(table);
    let width = widest(keys);
    let column = width as int;
    let line = lines(table, keys, width)[i];
    widest_bounds(keys, i);
    reveal_strlit(" -> ");
    assert(right_aligned(keys[i], width).len() == width);
    assert(line.subrange(0, column) =~= right_aligned(keys[i], width));
    assert(line.subrange(column - keys[i].len(), column) =~= keys[i]);
    assert(line.subrange(column, column + 4) =~= " -> "@);
    assert(line.skip(column + 4) =~= table[keys[i]].text());
}

} // verus!
