//! Failures of parsing and evaluation.

use vstd::prelude::*;

verus! {

/// Every way in which reading or evaluating an expression can fail.
#[derive(Debug, PartialEq, Eq)]
pub enum Error {
    /// The text is not exactly one well-formed expression.
    ParseError,
    /// Evaluation failed for a reason that the message describes.
    EvalError(String),
    /// An operation met a value of the wrong shape.
    TypeError,
    /// A callable was applied to the wrong number of operands.
    ArityError,
    /// No scope on the chain binds the name.
    NotFoundError(String),
}

/// The mathematical content of an [`Error`].
pub enum Failure {
    Parse,
    Eval(Seq<char>),
    Type,
    Arity,
    NotFound(Seq<char>),
}

impl View for Error {
    type V = Failure;

    open spec fn view(&self) -> Failure {
        match self {
            Error::ParseError => Failure::Parse,
            Error::EvalError(message) => Failure::Eval(message@),
            Error::TypeError => Failure::Type,
            Error::ArityError => Failure::Arity,
            Error::NotFoundError(name) => Failure::NotFound(name@),
        }
    }
}

} // verus!
