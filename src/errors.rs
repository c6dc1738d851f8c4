//! Failures of the core, and the status codes they become at a call boundary.
use crate::params::FheTypeId;
use vstd::prelude::*;

verus! {

#[derive(Clone, Copy, Debug, PartialEq, Eq, Structural)]
pub enum FheError {
    /// A plaintext outside the target type's range, or a malformed argument.
    InvalidArgument,
    /// The keys in use were generated from a configuration that did not
    /// enable this type.
    UnsupportedType(FheTypeId),
    /// No server key is installed.
    MissingContext,
    /// An unexpected fault, contained at the boundary.
    InternalFault,
}

/// Status reported for a successful call.
pub const STATUS_SUCCESS: i32 = 0;

/// The status code of an error at a call boundary.
pub open spec fn status_of(e: FheError) -> i32 {
    match e {
        FheError::InvalidArgument => 1,
        FheError::UnsupportedType(_) => 2,
        FheError::MissingContext => 3,
        FheError::InternalFault => 4,
    }
}

/// The status code of an outcome: zero on success, a stable non-zero code
/// per error kind.
pub fn status_code<T>(outcome: &Result<T, FheError>) -> (r: i32)
    ensures
        outcome is Ok ==> r == STATUS_SUCCESS,
        outcome is Err ==> r == status_of(outcome->Err_0) && r != STATUS_SUCCESS,
{
    match outcome {
        Ok(_) => STATUS_SUCCESS,
        Err(FheError::InvalidArgument) => 1,
        Err(FheError::UnsupportedType(_)) => 2,
        Err(FheError::MissingContext) => 3,
        Err(FheError::InternalFault) => 4,
    }
}

/// Whether an address may be dereferenced as a value of the given alignment:
/// it is non-null and a multiple of the alignment.
pub open spec fn address_ok(address: usize, align: usize) -> bool {
    address != 0 && address % align == 0
}

/// Validates a pointer argument, given as its address, before use; fails with
/// `InvalidArgument` when it is null or misaligned.
pub fn check_address(address: usize, align: usize) -> (r: Result<(), FheError>)
    requires
        align > 0,
    ensures
        r is Ok <==> address_ok(address, align),
        r is Err ==> r == Err::<(), FheError>(FheError::InvalidArgument),
{
    if address == 0 || address % align != 0 {
        Err(FheError::InvalidArgument)
    } else {
        Ok(())
    }
}

} // verus!
