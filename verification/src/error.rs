//! The failures of a mapping and of the two operations that build one.

use crate::symbol::Symbol;
use vstd::prelude::*;
use vstd::std_specs::cmp::PartialEqSpecImpl;
use vstd::string::*;

verus! {

/// The three kinds of failure.
#[derive(Debug, Clone, Copy, PartialEq, Eq, Structural)]
pub enum ErrorKind {
    /// The number of arguments is wrong.
    ArityError,
    /// An argument that has to be a symbol is not one.
    TypeError,
    /// The key is not among the entries.
    KeyError,
}

/// A failure, with what the caller needs to report it.
#[derive(Debug)]
pub enum Error {
    /// A mapping was called with `supplied` arguments, not with one.
    CallArity { supplied: usize },
    /// `get_environment` was given `supplied` arguments, not none.
    GetEnvironmentArity { supplied: usize },
    /// `mapping` was given `supplied` arguments, an odd number.
    MappingArity { supplied: usize },
    /// The key that a mapping was called with is no symbol; `text` is its
    /// rendering.
    CallKeyType { text: String },
    /// The argument of `mapping` at the even position `position` is no
    /// symbol; `text` is its rendering.
    MappingKeyType { position: usize, text: String },
    /// The mapping has no entry for `key`.
    KeyMissing { key: Symbol },
}

/// What an [`Error`] is in contracts.
pub enum ErrorView {
    CallArity { supplied: nat },
    GetEnvironmentArity { supplied: nat },
    MappingArity { supplied: nat },
    CallKeyType { text: Seq<char> },
    MappingKeyType { position: nat, text: Seq<char> },
    KeyMissing { key: Seq<char> },
}

impl View for Error {
    type V = ErrorView;

    open spec fn view(&self) -> ErrorView {
        match self {
            Error::CallArity { supplied } => ErrorView::CallArity { supplied: *supplied as nat },
            Error::GetEnvironmentArity { supplied } => ErrorView::GetEnvironmentArity {
                supplied: *supplied as nat,
            },
            Error::MappingArity { supplied } => ErrorView::MappingArity {
                supplied: *supplied as nat,
            },
            Error::CallKeyType { text } => ErrorView::CallKeyType { text: text@ },
            Error::MappingKeyType { position, text } => ErrorView::MappingKeyType {
                position: *position as nat,
                text: text@,
            },
            Error::KeyMissing { key } => ErrorView::KeyMissing { key: key@ },
        }
    }
}

/// What a mapping says when it is called with other than one argument.
pub const CALL_ARITY: &'static str = "Indexing into hash map takes exactly one argument";

/// What `get_environment` says when it is given arguments.
pub const GET_ENVIRONMENT_ARITY: &'static str = "Function get_environment expects no parameters";

/// What `mapping` says when it is given an odd number of arguments.
pub const MAPPING_ARITY: &'static str =
    "Constructing a mapping requires an even number of arguments";

/// What a mapping says when it is called with a key that is no symbol.
pub const CALL_KEY_TYPE: &'static str = "Indexing into hash map takes a symbol";

/// What `mapping` says when a key is no symbol.
pub const MAPPING_KEY_TYPE: &'static str = "Even arguments to construct mapping must be symbols";

/// The decimal digit for a number below ten.
pub open spec fn digit(value: nat) -> char {
    if value == 0 {
        '0'
    } else if value == 1 {
        '1'
    } else if value == 2 {
        '2'
    } else if value == 3 {
        '3'
    } else if value == 4 {
        '4'
    } else if value == 5 {
        '5'
    } else if value == 6 {
        '6'
    } else if value == 7 {
        '7'
    } else if value == 8 {
        '8'
    } else {
        '9'
    }
}

/// A number in decimal digits, without leading zeros.
pub open spec fn decimal(value: nat) -> Seq<char>
    decreases value,
{
    if value < 10 {
        seq![digit(value)]
    } else {
        decimal(value / 10).push(digit(value % 10))
    }
}

/// What an arity error adds to its message: the number of arguments that
/// were supplied.
pub open spec fn got(supplied: nat) -> Seq<char> {
    " (got "@ + decimal(supplied) + ")"@
}

/// What a type error adds to its message: the rendering of the argument
/// that is no symbol.
pub open spec fn see(text: Seq<char>) -> Seq<char> {
    " (see "@ + text + ")"@
}

impl ErrorView {
    /// The kind of the failure.
    pub open spec fn kind(self) -> ErrorKind {
        match self {
            ErrorView::CallArity { .. } => ErrorKind::ArityError,
            ErrorView::GetEnvironmentArity { .. } => ErrorKind::ArityError,
            ErrorView::MappingArity { .. } => ErrorKind::ArityError,
            ErrorView::CallKeyType { .. } => ErrorKind::TypeError,
            ErrorView::MappingKeyType { .. } => ErrorKind::TypeError,
            ErrorView::KeyMissing { .. } => ErrorKind::KeyError,
        }
    }

    /// The message of the failure. An arity error says what was expected and
    /// how many arguments were supplied, a type error shows the rendering of
    /// the offending argument, a key error names the missing key.
    pub open spec fn message(self) -> Seq<char> {
        match self {
            ErrorView::CallArity { supplied } => CALL_ARITY@ + got(supplied),
            ErrorView::GetEnvironmentArity { supplied } => GET_ENVIRONMENT_ARITY@ + got(supplied),
            ErrorView::MappingArity { supplied } => MAPPING_ARITY@ + got(supplied),
            ErrorView::CallKeyType { text } => CALL_KEY_TYPE@ + see(text),
            ErrorView::MappingKeyType { text, .. } => MAPPING_KEY_TYPE@ + see(text),
            ErrorView::KeyMissing { key } => "Key "@ + key + " missing in hash map"@,
        }
    }
}

/// Appends `value` in decimal digits to `text`.
fn push_decimal(text: &mut String, value: usize)
    ensures
        final(text)@ == old(text)@ + decimal(value as nat),
    decreases value,
{
    if value >= 10 {
        push_decimal(text, value / 10);
    }
    let last = match value % 10 {
        0 => "0",
        1 => "1",
        2 => "2",
        3 => "3",
        4 => "4",
        5 => "5",
        6 => "6",
        7 => "7",
        8 => "8",
        _ => "9",
    };
    proof {
        reveal_strlit("0");
        reveal_strlit("1");
        reveal_strlit("2");
        reveal_strlit("3");
        reveal_strlit("4");
        reveal_strlit("5");
        reveal_strlit("6");
        reveal_strlit("7");
        reveal_strlit("8");
        reveal_strlit("9");
        assert(last@ =~= seq![digit((value % 10) as nat)]);
    }
    text.append(last);
    proof {
        assert(text@ =~= old(text)@ + decimal(value as nat));
    }
}

/// Appends to `text` what an arity error adds to its message.
fn push_got(text: &mut String, supplied: usize)
    ensures
        final(text)@ == old(text)@ + got(supplied as nat),
{
    text.append(" (got ");
    push_decimal(text, supplied);
    text.append(")");
    proof {
        assert(text@ =~= old(text)@ + got(supplied as nat));
    }
}

/// Appends to `text` what a type error adds to its message.
fn push_see(text: &mut String, shown: &str)
    ensures
        final(text)@ == old(text)@ + see(shown@),
{
    text.append(" (see ");
    text.append(shown);
    text.append(")");
    proof {
        assert(text@ =~= old(text)@ + see(shown@));
    }
}

impl Error {
    /// The kind of this failure.
    pub fn kind(&self) -> (kind: ErrorKind)
        ensures
            kind == self@.kind(),
    {
        match self {
            Error::CallArity { .. } => ErrorKind::ArityError,
            Error::GetEnvironmentArity { .. } => ErrorKind::ArityError,
            Error::MappingArity { .. } => ErrorKind::ArityError,
            Error::CallKeyType { .. } => ErrorKind::TypeError,
            Error::MappingKeyType { .. } => ErrorKind::TypeError,
            Error::KeyMissing { .. } => ErrorKind::KeyError,
        }
    }

    /// The message of this failure.
    pub fn message(&self) -> (message: String)
        ensures
            message@ == self@.message(),
    {
        match self {
            Error::CallArity { supplied } => {
                let mut message = String::from_str(CALL_ARITY);
                push_got(&mut message, *supplied);
                message
            },
            Error::GetEnvironmentArity { supplied } => {
                let mut message = String::from_str(GET_ENVIRONMENT_ARITY);
                push_got(&mut message, *supplied);
                message
            },
            Error::MappingArity { supplied } => {
                let mut message = String::from_str(MAPPING_ARITY);
                push_got(&mut message, *supplied);
                message
            },
            Error::CallKeyType { text } => {
                let mut message = String::from_str(CALL_KEY_TYPE);
                push_see(&mut message, text.as_str());
                message
            },
            Error::MappingKeyType { text, .. } => {
                let mut message = String::from_str(MAPPING_KEY_TYPE);
                push_see(&mut message, text.as_str());
                message
            },
            Error::KeyMissing { key } => {
                let mut message = String::from_str("Key ");
                message.append(key.as_str());
                message.append(" missing in hash map");
                message
            },
        }
    }
}

impl Clone for Error {
    fn clone(&self) -> (copy: Error)
        ensures
            copy == *self,
    {
        match self {
            Error::CallArity { supplied } => Error::CallArity { supplied: *supplied },
            Error::GetEnvironmentArity { supplied } => Error::GetEnvironmentArity {
                supplied: *supplied,
            },
            Error::MappingArity { supplied } => Error::MappingArity { supplied: *supplied },
            Error::CallKeyType { text } => Error::CallKeyType { text: text.clone() },
            Error::MappingKeyType { position, text } => Error::MappingKeyType {
                position: *position,
                text: text.clone(),
            },
            Error::KeyMissing { key } => Error::KeyMissing { key: key.clone() },
        }
    }
}

impl PartialEq for Error {
    fn eq(&self, other: &Error) -> (equal: bool) {
        match (self, other) {
            (Error::CallArity { supplied: a }, Error::CallArity { supplied: b }) => *a == *b,
            (
                Error::GetEnvironmentArity { supplied: a },
                Error::GetEnvironmentArity { supplied: b },
            ) => *a == *b,
            (Error::MappingArity { supplied: a }, Error::MappingArity { supplied: b }) => *a == *b,
            (Error::CallKeyType { text: a }, Error::CallKeyType { text: b }) => *a == *b,
            (
                Error::MappingKeyType { position: p, text: a },
                Error::MappingKeyType { position: q, text: b },
            ) => *p == *q && *a == *b,
            (Error::KeyMissing { key: a }, Error::KeyMissing { key: b }) => *a == *b,
            _ => false,
        }
    }
}

impl PartialEqSpecImpl for Error {
    open spec fn obeys_eq_spec() -> bool {
        true
    }

    open spec fn eq_spec(&self, other: &Error) -> bool {
        self@ == other@
    }
}

impl Eq for Error {

}

} // verus!
