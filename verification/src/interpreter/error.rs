//! The ways in which evaluation fails.

use vstd::prelude::*;

verus! {

/// Why a form produced no value.
#[derive(Clone, Copy, Debug, PartialEq, Eq, Structural)]
pub enum EvalError {
    /// A name is bound in no frame from the place of its use to the root.
    Unbound,
    /// A closure with a fixed number of parameters was called with another
    /// number of arguments.
    Arity,
    /// The operator of a call is no procedure.
    NotCallable,
    /// A builtin procedure did not apply: the number or the type of the
    /// arguments was wrong.
    Misuse,
    /// A conditional without an alternative whose test was not true: it has
    /// no value. This is no failure of the conditional, but of what needs its
    /// value: an operand, a test, a definition.
    NoValue,
    /// `car` or `cdr` of something that is no pair, or of a pair without that
    /// slot. The session cannot go on.
    Fatal,
    /// Calls are nested deeper than the limit. The session cannot go on.
    Depth,
}

impl EvalError {
    /// The failures that end the session.
    pub open spec fn is_fatal(self) -> bool {
        self == EvalError::Fatal || self == EvalError::Depth
    }

    /// Whether this failure ends the session.
    pub fn fatal(&self) -> (b: bool)
        ensures
            b == self.is_fatal(),
    {
        match self {
            EvalError::Fatal => true,
            EvalError::Depth => true,
            _ => false,
        }
    }
}

} // verus!
