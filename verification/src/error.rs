//! Why an expression attribute could not be decoded.
use vstd::prelude::*;

verus! {

/// The reason an expression attribute could not be decoded.
#[derive(Debug, Clone, PartialEq, Eq)]
pub enum ExprError {
    /// An attribute that holds a 32-bit number has a payload that is not
    /// four bytes long; `kind` is its type and `received` its length.
    InvalidNumber { kind: u16, received: usize },
    /// The nested attributes of a data attribute of type `kind` are not well
    /// framed; `cause` describes the first framing error.
    InvalidNestedData { kind: u16, cause: String },
}

/// The mathematical value of an [`ExprError`]: its reason and the numbers
/// and text that go with it.
pub enum ExprErrorView {
    InvalidNumber { kind: u16, received: nat },
    InvalidNestedData { kind: u16, cause: Seq<char> },
}

impl View for ExprError {
    type V = ExprErrorView;

    open spec fn view(&self) -> ExprErrorView {
        match self {
            ExprError::InvalidNumber { kind, received } => ExprErrorView::InvalidNumber {
                kind: *kind,
                received: *received as nat,
            },
            ExprError::InvalidNestedData { kind, cause } => ExprErrorView::InvalidNestedData {
                kind: *kind,
                cause: cause@,
            },
        }
    }
}

/// The outcome `r` of a decoding call is the outcome `s` of its
/// specification: the same value, or an error for the same reason.
pub open spec fn outcome_is<T: View>(r: Result<T, ExprError>, s: Result<T::V, ExprErrorView>) -> bool {
    match r {
        Ok(x) => s matches Ok(y) && x@ == y,
        Err(e) => s matches Err(f) && e@ == f,
    }
}

} // verus!
