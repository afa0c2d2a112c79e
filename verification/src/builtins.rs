//! The two operations that build a mapping: `get_environment` captures the
//! bindings of an environment, `mapping` takes keys and values one by one.

use crate::environment::Environment;
use crate::error::Error;
use crate::error::ErrorView;
use crate::expression::views;
use crate::expression::Expression;
use crate::expression::ExpressionView;
use crate::hash_map::is_clone_of_map;
use crate::hash_map::is_clone_of_map_insert;
use crate::hash_map::HashMap;
use vstd::prelude::*;
use vstd::string::*;

verus! {

/// Whether every argument at an even position is a symbol.
pub open spec fn keys_are_symbols<E>(arguments: Seq<ExpressionView<E>>) -> bool {
    forall|i: int| 0 <= i < arguments.len() && i % 2 == 0 ==> #[trigger] arguments[i] is Symbol
}

/// Whether `position` is the first even position whose argument is no
/// symbol.
pub open spec fn is_first_offender<E>(arguments: Seq<ExpressionView<E>>, position: int) -> bool {
    &&& 0 <= position < arguments.len()
    &&& position % 2 == 0
    &&& !(arguments[position] is Symbol)
    &&& forall|i: int| 0 <= i < position && i % 2 == 0 ==> #[trigger] arguments[i] is Symbol
}

/// The first even position whose argument is no symbol, where there is one.
pub open spec fn first_offender<E>(arguments: Seq<ExpressionView<E>>) -> int {
    choose|position: int| is_first_offender(arguments, position)
}

/// The table that alternating keys and values build. Pair by pair, the value
/// is stored for the key, in place of what an earlier pair stored for it.
pub open spec fn constructed<E>(arguments: Seq<ExpressionView<E>>) -> Map<
    Seq<char>,
    ExpressionView<E>,
>
    recommends
        arguments.len() % 2 == 0,
        keys_are_symbols(arguments),
    decreases arguments.len(),
{
    if arguments.len() < 2 {
        Map::empty()
    } else {
        let before = arguments.len() - 2;
        constructed(arguments.take(before)).insert(
            arguments[before]->Symbol_0,
            arguments[before + 1],
        )
    }
}

/// What `mapping` makes of its arguments: the table, or the failure.
pub open spec fn construction<E>(arguments: Seq<ExpressionView<E>>) -> Result<
    Map<Seq<char>, ExpressionView<E>>,
    ErrorView,
> {
    if arguments.len() % 2 != 0 {
        Err(ErrorView::MappingArity { supplied: arguments.len() })
    } else if !keys_are_symbols(arguments) {
        let position = first_offender(arguments);
        Err(
            ErrorView::MappingKeyType {
                position: position as nat,
                text: arguments[position].text(),
            },
        )
    } else {
        Ok(constructed(arguments))
    }
}

/// Builds a mapping from alternating keys and values.
///
/// The arguments at the positions 0, 2, 4, ... are the keys and have to be
/// symbols. The argument after each key is its value: it is stored as it
/// stands, without being evaluated. Where a key occurs more than once, its
/// last value stays. An odd number of arguments is an arity error, whatever
/// they are; otherwise the first key that is no symbol is a type error. The
/// environment is left as it is.
pub fn mapping<E: Clone>(arguments: &[Expression<E>], env: &mut Environment<E>) -> (result: Result<
    HashMap<E>,
    Error,
>)
    ensures
        *final(env) == *old(env),
        match construction(views(arguments@)) {
            Ok(table) => result matches Ok(built) && is_clone_of_map(built@, table),
            Err(failure) => result matches Err(error) && error@ == failure,
        },
{
    let ghost items = views(arguments@);
    if arguments.len() % 2 != 0 {
        return Err(Error::MappingArity { supplied: arguments.len() });
    }
    let pairs = arguments.len() / 2;
    let mut entries: HashMap<E> = HashMap::new();
    let mut pair: usize = 0;
    proof {
        assert(entries@ =~= constructed(items.take(0)));
    }
    while pair < pairs
        invariant
            items == views(arguments@),
            arguments@.len() == 2 * pairs,
            pair <= pairs,
            is_clone_of_map(entries@, constructed(items.take(2 * pair))),
            forall|i: int| 0 <= i < 2 * pair && i % 2 == 0 ==> #[trigger] items[i] is Symbol,
        decreases pairs - pair,
    {
        let key_at = 2 * pair;
        match arguments[key_at].as_symbol() {
            None => {
                proof {
                    assert(is_first_offender(items, key_at as int));
                    assert(is_first_offender(items, first_offender(items)));
                }
                return Err(
                    Error::MappingKeyType {
                        position: key_at,
                        text: String::from_str(arguments[key_at].text()),
                    },
                );
            },
            Some(key) => {
                let key = key.clone();
                let value = arguments[key_at + 1].clone();
                proof {
                    let next = items.take(2 * pair + 2);
                    assert(next.take(next.len() - 2) =~= items.take(2 * pair));
                    is_clone_of_map_insert(
                        entries@,
                        constructed(items.take(2 * pair)),
                        key@,
                        value@,
                        items[key_at + 1],
                    );
                }
                entries.insert(key, value);
            },
        }
        pair += 1;
    }
    proof {
        assert(items.take(2 * pair) =~= items);
    }
    Ok(entries)
}

/// What `get_environment` makes of a call with `supplied` arguments in an
/// environment with the bindings `bindings`: their table, or the failure.
pub open spec fn captured<E>(supplied: nat, bindings: Map<Seq<char>, ExpressionView<E>>) -> Result<
    Map<Seq<char>, ExpressionView<E>>,
    ErrorView,
> {
    if supplied != 0 {
        Err(ErrorView::GetEnvironmentArity { supplied })
    } else {
        Ok(bindings)
    }
}

/// Captures the bindings of the environment in a mapping.
///
/// The mapping holds every symbol that is bound when the call is made, with
/// a clone of its value, and does not change when the environment does
/// later. The operation takes no arguments: any argument is an arity error.
/// The environment is left as it is.
pub fn get_environment<E: Clone>(arguments: &[Expression<E>], env: &mut Environment<E>) -> (result:
    Result<HashMap<E>, Error>)
    ensures
        *final(env) == *old(env),
        match captured(arguments@.len(), old(env)@) {
            Ok(table) => result matches Ok(snapshot) && is_clone_of_map(snapshot@, table),
            Err(failure) => result matches Err(error) && error@ == failure,
        },
{
    if arguments.len() != 0 {
        return Err(Error::GetEnvironmentArity { supplied: arguments.len() });
    }
    Ok(env.table().clone())
}

} // verus!
