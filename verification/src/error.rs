//! The failures that the protocol's operations report.
use vstd::prelude::*;

verus! {

/// Why an operation was refused.
#[derive(Clone, Copy, Debug, PartialEq, Eq, Structural)]
pub enum ProtocolError {
    /// The caller is not the protocol's administrator.
    Unauthorized,
    /// An amount that must be positive was zero or negative.
    InvalidAmount,
    /// The proposal or asset referred to does not exist.
    NotFound,
    /// A call to a price source or to another contract failed.
    ExternalCallFailed,
}

} // verus!
