//! The error that decoding reports.
use vstd::prelude::*;

verus! {

/// The error type of the ABI codec that the adapters delegate to.
#[verifier::external_type_specification]
#[verifier::external_body]
pub struct ExSolError(alloy_sol_types::Error);

/// Input that is not the ABI encoding of a value of the requested type.
#[derive(Debug, Clone, Copy, PartialEq, Eq, Structural)]
pub enum DecodeError {
    /// The buffer is not a well-formed encoding: too short, a length or
    /// offset that points outside it, or non-zero padding.
    Malformed,
}

} // verus!
