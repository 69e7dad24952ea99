//! The errors a program evaluation may end with. All of them are
//! deterministic: the same program on the same machine fails the same way.

use vstd::prelude::*;

use crate::data::{data_eq, Data};

verus! {

/// Various errors that may occur.
#[derive(Debug)]
pub enum Error {
    /// A number was attempted to be divided by zero.
    DivideByZero,
    /// An invalid type was provided. The offending value was already consumed
    /// from the stack and is reported here, not restored.
    InvalidType { got: Data },
    /// The stack was empty and a value was attempted to be popped off.
    StackUnderflow,
    /// There was an unhandled token.
    UnhandledToken { got: String },
}

/// Structural equality on errors, with the carried values compared by
/// contents.
pub open spec fn error_eq(a: Error, b: Error) -> bool {
    match (a, b) {
        (Error::DivideByZero, Error::DivideByZero) => true,
        (Error::InvalidType { got: x }, Error::InvalidType { got: y }) => data_eq(x, y),
        (Error::StackUnderflow, Error::StackUnderflow) => true,
        (Error::UnhandledToken { got: x }, Error::UnhandledToken { got: y }) => x@ == y@,
        _ => false,
    }
}

impl PartialEq for Error {
    fn eq(&self, other: &Error) -> (r: bool) {
        match (self, other) {
            (Error::DivideByZero, Error::DivideByZero) => true,
            (Error::InvalidType { got: x }, Error::InvalidType { got: y }) => *x == *y,
            (Error::StackUnderflow, Error::StackUnderflow) => true,
            (Error::UnhandledToken { got: x }, Error::UnhandledToken { got: y }) => *x == *y,
            _ => false,
        }
    }
}

impl vstd::std_specs::cmp::PartialEqSpecImpl for Error {
    open spec fn obeys_eq_spec() -> bool {
        true
    }

    open spec fn eq_spec(&self, other: &Error) -> bool {
        error_eq(*self, *other)
    }
}

} // verus!
