//! The binding table of the evaluator, as far as a mapping reads it.

use crate::expression::Expression;
use crate::expression::ExpressionView;
use crate::hash_map::HashMap;
use crate::symbol::Symbol;
use vstd::prelude::*;

verus! {

/// The variables that are bound at one point of an evaluation, each with
/// its value.
#[derive(Debug)]
pub struct Environment<E> {
    /// The table of the bindings.
    inner: HashMap<E>,
}

impl<E> View for Environment<E> {
    type V = Map<Seq<char>, ExpressionView<E>>;

    closed spec fn view(&self) -> Map<Seq<char>, ExpressionView<E>> {
        self.inner@
    }
}

impl<E> Environment<E> {
    /// The environment without bindings.
    pub fn new() -> (environment: Environment<E>)
        ensures
            environment@ == Map::<Seq<char>, ExpressionView<E>>::empty(),
    {
        Environment { inner: HashMap::new() }
    }

    /// The table of the bindings.
    pub(crate) fn table(&self) -> (table: &HashMap<E>)
        ensures
            table@ == self@,
    {
        &self.inner
    }

    /// Binds `symbol` to `value`, in place of what it was bound to.
    pub fn bind(&mut self, symbol: Symbol, value: Expression<E>)
        ensures
            final(self)@ == old(self)@.insert(symbol@, value@),
    {
        self.inner.insert(symbol, value);
    }

    /// The value that `symbol` is bound to, if it is bound.
    pub fn lookup(&self, symbol: &Symbol) -> (value: Option<&Expression<E>>)
        ensures
            match value {
                Some(found) => self@.contains_key(symbol@) && found@ == self@[symbol@],
                None => !self@.contains_key(symbol@),
            },
    {
        self.inner.get(symbol)
    }
}

} // verus!
