//! Recoverable errors, each carrying the source location it is reported at.

use vstd::prelude::*;
use codemap::Span;

verus! {

#[verifier::external_type_specification]
#[verifier::external_body]
pub struct ExSpan(codemap::Span);

#[derive(Clone, Copy, Debug, PartialEq, Eq, Structural)]
pub enum ErrorKind {
    /// The value has no CSS form.
    InvalidCss,
    /// The units of the operands cannot be converted into each other.
    IncompatibleUnits,
    /// The operation is not defined on the operands.
    UndefinedOperation,
    /// The value does not have the shape of a selector.
    InvalidSelector,
}

#[derive(Debug)]
pub struct SassError {
    pub kind: ErrorKind,
    pub message: String,
    pub span: Span,
}

impl SassError {
    pub fn new(kind: ErrorKind, message: String, span: Span) -> (r: SassError)
        ensures
            r.kind == kind,
            r.message@ == message@,
            r.span == span,
    {
        SassError { kind, message, span }
    }
}

} // verus!
