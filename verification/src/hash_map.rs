//! The mapping atom: an immutable table from symbols to expressions.

use crate::entries::ascending;
use crate::entries::ascending_unique;
use crate::entries::entry_index;
use crate::entries::entry_keys;
use crate::entries::entry_keys_listed;
use crate::entries::entry_map;
use crate::entries::entry_map_at;
use crate::entries::lists_keys;
use crate::entries::position;
use crate::entries::store;
use crate::error::Error;
use crate::error::ErrorView;
use crate::expression::clones_are_equal;
use crate::expression::Expression;
use crate::expression::ExpressionView;
use crate::symbol::precedes;
use crate::symbol::precedes_irreflexive;
use crate::symbol::Symbol;
use vstd::prelude::*;
use vstd::std_specs::cmp::PartialEqSpec;
use vstd::std_specs::cmp::PartialEqSpecImpl;
use vstd::string::*;

verus! {

/// A table from symbols to expressions, each symbol with one value.
///
/// A mapping is built by `mapping` and `get_environment` and never changes
/// afterwards. Two mappings are equal where they hold equal values for the
/// same symbols, in whatever order they were built.
#[derive(Debug)]
pub struct HashMap<E> {
    /// The entries, in the ascending order of their keys.
    entries: Vec<(Symbol, Expression<E>)>,
}

/// Whether `copy` is what cloning every value of `source` may give: the same
/// keys, each with a clone of its value.
pub open spec fn is_clone_of_map<E: Clone>(
    copy: Map<Seq<char>, ExpressionView<E>>,
    source: Map<Seq<char>, ExpressionView<E>>,
) -> bool {
    &&& copy.dom() =~= source.dom()
    &&& forall|key: Seq<char>| #[trigger]
        source.contains_key(key) ==> copy[key].is_clone_of(source[key])
}

/// A clone of a table stays one when a value is stored in the table and a
/// clone of the value under the same key in the clone.
pub proof fn is_clone_of_map_insert<E: Clone>(
    copy: Map<Seq<char>, ExpressionView<E>>,
    source: Map<Seq<char>, ExpressionView<E>>,
    key: Seq<char>,
    copied: ExpressionView<E>,
    value: ExpressionView<E>,
)
    requires
        is_clone_of_map(copy, source),
        copied.is_clone_of(value),
    ensures
        is_clone_of_map(copy.insert(key, copied), source.insert(key, value)),
{
    let stored = source.insert(key, value);
    let copies = copy.insert(key, copied);
    assert forall|k: Seq<char>| #[trigger] stored.contains_key(k) implies copies[k].is_clone_of(
        stored[k],
    ) by {
        if k != key {
            assert(source.contains_key(k));
        }
    }
}

/// Where the clones of values are equal to the values, the clone of a table
/// is equal to the table.
pub proof fn clone_of_map_is_equal<E: Clone>(
    copy: Map<Seq<char>, ExpressionView<E>>,
    source: Map<Seq<char>, ExpressionView<E>>,
)
    requires
        clones_are_equal::<E>(),
        is_clone_of_map(copy, source),
    ensures
        copy == source,
{
    assert forall|key: Seq<char>| #[trigger] source.contains_key(key) implies copy[key]
        == source[key] by {
        copy[key].clone_is_equal(source[key]);
    }
    assert(copy =~= source);
}

impl<E> View for HashMap<E> {
    type V = Map<Seq<char>, ExpressionView<E>>;

    closed spec fn view(&self) -> Map<Seq<char>, ExpressionView<E>> {
        entry_map(self.entries@)
    }
}

impl<E> HashMap<E> {
    #[verifier::type_invariant]
    spec fn well_formed(self) -> bool {
        ascending(entry_keys(self.entries@))
    }

    /// The entries, in the ascending order of their keys.
    pub(crate) fn entries(&self) -> (entries: &Vec<(Symbol, Expression<E>)>)
        ensures
            ascending(entry_keys(entries@)),
            self@ == entry_map(entries@),
    {
        proof {
            use_type_invariant(self);
        }
        &self.entries
    }

    /// The mapping that holds `entries`.
    pub(crate) fn from_entries(entries: Vec<(Symbol, Expression<E>)>) -> (mapping: HashMap<E>)
        requires
            ascending(entry_keys(entries@)),
        ensures
            mapping@ == entry_map(entries@),
    {
        HashMap { entries }
    }

    /// The mapping without entries.
    pub(crate) fn new() -> (mapping: HashMap<E>)
        ensures
            mapping@ == Map::<Seq<char>, ExpressionView<E>>::empty(),
    {
        let mapping = HashMap { entries: Vec::new() };
        assert(mapping@ =~= Map::<Seq<char>, ExpressionView<E>>::empty());
        mapping
    }

    /// Stores `value` for `key`, in place of what was stored for it.
    pub(crate) fn insert(&mut self, key: Symbol, value: Expression<E>)
        ensures
            final(self)@ == old(self)@.insert(key@, value@),
    {
        proof {
            use_type_invariant(&*self);
        }
        let mut entries: Vec<(Symbol, Expression<E>)> = Vec::new();
        core::mem::swap(&mut self.entries, &mut entries);
        store(&mut entries, key, value);
        core::mem::swap(&mut self.entries, &mut entries);
    }

    /// The value stored for `key`, if there is one.
    pub fn get(&self, key: &Symbol) -> (value: Option<&Expression<E>>)
        ensures
            match value {
                Some(found) => self@.contains_key(key@) && found@ == self@[key@],
                None => !self@.contains_key(key@),
            },
    {
        proof {
            use_type_invariant(self);
        }
        let at = position(&self.entries, key);
        if at < self.entries.len() && self.entries[at].0 == *key {
            proof {
                entry_map_at(self.entries@, at as int);
            }
            Some(&self.entries[at].1)
        } else {
            proof {
                let keys = entry_keys(self.entries@);
                if self@.contains_key(key@) {
                    let j = entry_index(self.entries@, key@);
                    precedes_irreflexive(key@);
                    if j > at {
                        assert(precedes(keys[at as int], keys[j]));
                    }
                }
            }
            None
        }
    }
}

/// What calling a mapping with `arguments` comes to before anything is
/// evaluated: the one argument, which is to be evaluated next, or the
/// failure.
pub open spec fn called<E>(arguments: Seq<Expression<E>>) -> Result<Expression<E>, ErrorView> {
    if arguments.len() == 1 {
        Ok(arguments[0])
    } else {
        Err(ErrorView::CallArity { supplied: arguments.len() })
    }
}

/// What looking up the evaluated `key` in `table` comes to: the value stored
/// for it, or the failure.
pub open spec fn indexed<E>(
    table: Map<Seq<char>, ExpressionView<E>>,
    key: ExpressionView<E>,
) -> Result<ExpressionView<E>, ErrorView> {
    match key {
        ExpressionView::Other { text, .. } => Err(ErrorView::CallKeyType { text }),
        ExpressionView::Symbol(name) => if table.contains_key(name) {
            Ok(table[name])
        } else {
            Err(ErrorView::KeyMissing { key: name })
        },
    }
}

impl<E> HashMap<E> {
    /// The name of this kind of value.
    pub fn sized_name() -> (name: &'static str)
        ensures
            name@ == "hash map"@,
    {
        "hash map"
    }

    /// The name of the kind of this value.
    pub fn name(&self) -> (name: &'static str)
        ensures
            name@ == "hash map"@,
    {
        "hash map"
    }

    /// Begins a call of this mapping as a function.
    ///
    /// A mapping takes exactly one argument. Where it got one, the caller has
    /// to evaluate it and to hand the result to `index`; where it got none or
    /// more, the call has failed and nothing is to be evaluated.
    pub fn call<'a>(&self, arguments: &'a [Expression<E>]) -> (result: Result<
        &'a Expression<E>,
        Error,
    >)
        ensures
            match called(arguments@) {
                Ok(argument) => result matches Ok(next) && *next == argument,
                Err(failure) => result matches Err(error) && error@ == failure,
            },
    {
        if arguments.len() != 1 {
            return Err(Error::CallArity { supplied: arguments.len() });
        }
        Ok(&arguments[0])
    }
}

impl<E: Clone> HashMap<E> {
    /// Ends a call of this mapping: looks up `key`, the evaluated argument.
    ///
    /// A key that is no symbol is a type error, which shows the rendering of
    /// the key. A symbol without an entry is a key error, which names the
    /// symbol. Otherwise the result is a clone of the value stored for the
    /// symbol.
    pub fn index(&self, key: &Expression<E>) -> (result: Result<Expression<E>, Error>)
        ensures
            match indexed(self@, key@) {
                Ok(value) => result matches Ok(found) && found@.is_clone_of(value),
                Err(failure) => result matches Err(error) && error@ == failure,
            },
    {
        match key.as_symbol() {
            None => Err(Error::CallKeyType { text: String::from_str(key.text()) }),
            Some(symbol) => match self.get(symbol) {
                Some(value) => Ok(value.clone()),
                None => Err(Error::KeyMissing { key: symbol.clone() }),
            },
        }
    }
}

impl<E: Clone> Clone for HashMap<E> {
    fn clone(&self) -> (copy: HashMap<E>)
        ensures
            is_clone_of_map(copy@, self@),
    {
        let entries = self.entries();
        let mut copies: Vec<(Symbol, Expression<E>)> = Vec::new();
        let mut i: usize = 0;
        while i < entries.len()
            invariant
                i <= entries@.len(),
                copies@.len() == i,
                forall|j: int|
                    0 <= j < i ==> (#[trigger] copies@[j]).0@ == entries@[j].0@
                        && copies@[j].1@.is_clone_of(entries@[j].1@),
            decreases entries@.len() - i,
        {
            copies.push((entries[i].0.clone(), entries[i].1.clone()));
            i += 1;
        }
        proof {
            assert(entry_keys(copies@) =~= entry_keys(entries@));
            assert forall|key: Seq<char>|
                entry_map(copies@).contains_key(key) == entry_map(entries@).contains_key(key) by {
                if entry_map(copies@).contains_key(key) {
                    assert(entries@[entry_index(copies@, key)].0@ == key);
                }
                if entry_map(entries@).contains_key(key) {
                    assert(copies@[entry_index(entries@, key)].0@ == key);
                }
            }
            assert forall|key: Seq<char>| #[trigger]
                entry_map(entries@).contains_key(key) implies entry_map(copies@)[key].is_clone_of(
                entry_map(entries@)[key],
            ) by {
                let j = entry_index(entries@, key);
                entry_map_at(entries@, j);
                entry_map_at(copies@, j);
            }
        }
        HashMap::from_entries(copies)
    }
}

/// Whether two tables are equal: they have the same keys, and under each key
/// values that are equal.
pub open spec fn equal_tables<E: PartialEq>(
    a: Map<Seq<char>, ExpressionView<E>>,
    b: Map<Seq<char>, ExpressionView<E>>,
) -> bool {
    &&& a.dom() =~= b.dom()
    &&& forall|key: Seq<char>| #[trigger] a.contains_key(key) ==> a[key].equals(b[key])
}

impl<E: PartialEq> PartialEq for HashMap<E> {
    fn eq(&self, other: &HashMap<E>) -> (equal: bool) {
        let a = self.entries();
        let b = other.entries();
        let ghost keys_a = entry_keys(a@);
        let ghost keys_b = entry_keys(b@);
        proof {
            entry_keys_listed(a@);
            entry_keys_listed(b@);
        }
        if a.len() != b.len() {
            proof {
                if equal_tables(self@, other@) {
                    ascending_unique(keys_a, keys_b);
                }
            }
            return false;
        }
        let mut i: usize = 0;
        while i < a.len()
            invariant
                i <= a@.len(),
                a@.len() == b@.len(),
                keys_a == entry_keys(a@),
                keys_b == entry_keys(b@),
                self@ == entry_map(a@),
                other@ == entry_map(b@),
                lists_keys(keys_a, self@),
                lists_keys(keys_b, other@),
                forall|j: int| 0 <= j < i ==> #[trigger] keys_a[j] == keys_b[j],
                E::obeys_eq_spec() ==> forall|j: int|
                    0 <= j < i ==> (#[trigger] a@[j]).1@.equals(b@[j].1@),
            decreases a@.len() - i,
        {
            if !(a[i].0 == b[i].0) {
                proof {
                    if equal_tables(self@, other@) {
                        ascending_unique(keys_a, keys_b);
                        assert(keys_a[i as int] == keys_b[i as int]);
                    }
                }
                return false;
            }
            if !(a[i].1 == b[i].1) {
                proof {
                    if E::obeys_eq_spec() && equal_tables(self@, other@) {
                        entry_map_at(a@, i as int);
                        entry_map_at(b@, i as int);
                    }
                }
                return false;
            }
            proof {
                assert(keys_a[i as int] == keys_b[i as int]);
            }
            i += 1;
        }
        proof {
            if E::obeys_eq_spec() {
                assert(keys_a =~= keys_b);
                assert forall|key: Seq<char>| #[trigger]
                    self@.contains_key(key) implies self@[key].equals(other@[key]) by {
                    let j = entry_index(a@, key);
                    assert(keys_b[j] == key);
                    entry_map_at(a@, j);
                    entry_map_at(b@, j);
                }
            }
        }
        true
    }
}

impl<E: PartialEq> PartialEqSpecImpl for HashMap<E> {
    open spec fn obeys_eq_spec() -> bool {
        E::obeys_eq_spec()
    }

    open spec fn eq_spec(&self, other: &HashMap<E>) -> bool {
        equal_tables(self@, other@)
    }
}

} // verus!
