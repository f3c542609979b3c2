//! What can go wrong in a multiplication or on its way through the workers.

use vstd::prelude::*;

verus! {

/// The failures that the matrix operations, their workers and the counters report.
#[derive(Debug, Clone, Copy, PartialEq, Eq, Structural)]
pub enum Error {
    /// The left matrix does not have as many columns as the right one has rows.
    ShapeMismatch,
    /// The two operands of a dot product differ in length.
    SizeMismatch,
    /// A worker's reply found no receiver.
    SendFailure,
    /// A reply channel was closed before its value arrived.
    ReceiveFailure,
    /// A counter was asked for under a name that was never registered.
    KeyNotFound,
}

impl Error {
    /// The text under which the failure is reported.
    pub open spec fn text(self) -> Seq<char> {
        match self {
            Error::ShapeMismatch => "Matrix size mismatch"@,
            Error::SizeMismatch => "Vector size mismatch"@,
            Error::SendFailure => "Reply receiver dropped"@,
            Error::ReceiveFailure => "Reply channel disconnected"@,
            Error::KeyNotFound => "key not found"@,
        }
    }

    /// A short description, fit for a log line.
    pub fn message(&self) -> (s: &'static str)
        ensures
            s@ == self.text(),
    {
        match self {
            Error::ShapeMismatch => "Matrix size mismatch",
            Error::SizeMismatch => "Vector size mismatch",
            Error::SendFailure => "Reply receiver dropped",
            Error::ReceiveFailure => "Reply channel disconnected",
            Error::KeyNotFound => "key not found",
        }
    }
}

} // verus!
