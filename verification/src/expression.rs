//! Expressions as a mapping sees them: a symbol, or a value of any other
//! kind that is carried along together with its rendering.

use crate::symbol::Symbol;
use vstd::prelude::*;
use vstd::std_specs::cmp::PartialEqSpec;
use vstd::std_specs::cmp::PartialEqSpecImpl;
use vstd::string::*;

verus! {

/// An expression of the evaluator.
///
/// A mapping looks into an expression for two things only: whether it is a
/// symbol, and what it looks like when rendered. Everything else about a
/// value of the evaluator stays in `value`, which is stored, cloned, compared
/// and handed back, and never inspected.
#[derive(Debug)]
pub enum Expression<E> {
    /// A symbol. It renders as its name.
    Symbol(Symbol),
    /// An expression of any other kind, with the text it renders as.
    Other { value: E, text: String },
}

/// What an [`Expression`] is in contracts: texts are sequences of characters.
pub enum ExpressionView<E> {
    Symbol(Seq<char>),
    Other { value: E, text: Seq<char> },
}

impl<E> View for Expression<E> {
    type V = ExpressionView<E>;

    open spec fn view(&self) -> ExpressionView<E> {
        match self {
            Expression::Symbol(symbol) => ExpressionView::Symbol(symbol@),
            Expression::Other { value, text } => ExpressionView::Other {
                value: *value,
                text: text@,
            },
        }
    }
}

impl<E> ExpressionView<E> {
    /// The rendering of the expression.
    pub open spec fn text(self) -> Seq<char> {
        match self {
            ExpressionView::Symbol(name) => name,
            ExpressionView::Other { value, text } => text,
        }
    }
}

impl<E: Clone> ExpressionView<E> {
    /// Whether `self` is what cloning `source` may give: the same symbol, or
    /// a clone of the value with the same rendering.
    pub open spec fn is_clone_of(self, source: ExpressionView<E>) -> bool {
        match (source, self) {
            (ExpressionView::Symbol(a), ExpressionView::Symbol(b)) => a == b,
            (
                ExpressionView::Other { value: v, text: t },
                ExpressionView::Other { value: w, text: u },
            ) => cloned::<E>(v, w) && t == u,
            _ => false,
        }
    }

    /// Where the clones of values are equal to the values, the clones of
    /// expressions are equal to the expressions.
    pub proof fn clone_is_equal(self, source: ExpressionView<E>)
        requires
            clones_are_equal::<E>(),
            self.is_clone_of(source),
        ensures
            self == source,
    {
    }
}

/// Whether a clone of a value of `E` is always equal to the value.
pub open spec fn clones_are_equal<E: Clone>() -> bool {
    forall|value: E, copy: E| #[trigger] cloned::<E>(value, copy) ==> copy == value
}

/// The views of a sequence of expressions, one for one.
pub open spec fn views<E>(expressions: Seq<Expression<E>>) -> Seq<ExpressionView<E>> {
    expressions.map_values(|e: Expression<E>| e@)
}

impl<E> Expression<E> {
    /// The symbol that this expression is, if it is one.
    pub fn as_symbol(&self) -> (symbol: Option<&Symbol>)
        ensures
            match self@ {
                ExpressionView::Symbol(name) => symbol matches Some(s) && s@ == name,
                ExpressionView::Other { .. } => symbol is None,
            },
    {
        match self {
            Expression::Symbol(symbol) => Some(symbol),
            Expression::Other { .. } => None,
        }
    }

    /// The rendering of this expression.
    pub fn text(&self) -> (text: &str)
        ensures
            text@ == self@.text(),
    {
        match self {
            Expression::Symbol(symbol) => symbol.as_str(),
            Expression::Other { text, .. } => text.as_str(),
        }
    }
}

impl<E: Clone> Clone for Expression<E> {
    fn clone(&self) -> (copy: Expression<E>)
        ensures
            copy@.is_clone_of(self@),
    {
        match self {
            Expression::Symbol(symbol) => Expression::Symbol(symbol.clone()),
            Expression::Other { value, text } => Expression::Other {
                value: value.clone(),
                text: text.clone(),
            },
        }
    }
}

impl<E: PartialEq> PartialEq for Expression<E> {
    fn eq(&self, other: &Expression<E>) -> (equal: bool) {
        match (self, other) {
            (Expression::Symbol(a), Expression::Symbol(b)) => *a == *b,
            (
                Expression::Other { value: v, text: t },
                Expression::Other { value: w, text: u },
            ) => *v == *w && *t == *u,
            _ => false,
        }
    }
}

impl<E: PartialEq> PartialEqSpecImpl for Expression<E> {
    open spec fn obeys_eq_spec() -> bool {
        E::obeys_eq_spec()
    }

    open spec fn eq_spec(&self, other: &Expression<E>) -> bool {
        self@.equals(other@)
    }
}

impl<E: PartialEq> ExpressionView<E> {
    /// Structural equality: the same symbol, or equal values with the same
    /// rendering.
    pub open spec fn equals(self, other: ExpressionView<E>) -> bool {
        match (self, other) {
            (ExpressionView::Symbol(a), ExpressionView::Symbol(b)) => a == b,
            (
                ExpressionView::Other { value: v, text: t },
                ExpressionView::Other { value: w, text: u },
            ) => v.eq_spec(&w) && t == u,
            _ => false,
        }
    }
}

} // verus!
