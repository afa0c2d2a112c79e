//! A mapping atom for a Lisp evaluator: an immutable table from symbols to
//! expressions that is itself an expression, and a function of its keys.
//!
//! The evaluator owns the expressions. A mapping reads two things of an
//! expression, whether it is a symbol and how it renders, and carries the
//! rest along untouched: see [`Expression`]. The bindings of the evaluator
//! come in as an [`Environment`].
//!
//! - [`mapping`] builds a mapping from alternating keys and values.
//! - [`get_environment`] captures the bindings of an environment.
//! - [`HashMap::call`] and [`HashMap::index`] are the two halves of a call
//!   of a mapping. Between them the evaluator evaluates the argument.
//! - [`HashMap::render`] is the text form.
//!
//! Every function is verified against its contract. The contracts speak of
//! a mapping as a `Map` from names to the views of expressions.

pub mod builtins;
pub mod entries;
pub mod environment;
pub mod error;
pub mod expression;
pub mod hash_map;
pub mod laws;
pub mod render;
pub mod symbol;

pub use crate::builtins::get_environment;
pub use crate::builtins::mapping;
pub use crate::environment::Environment;
pub use crate::error::Error;
pub use crate::error::ErrorKind;
pub use crate::expression::Expression;
pub use crate::hash_map::HashMap;
pub use crate::symbol::Symbol;
