//! What can go wrong in a conversion.

use vstd::prelude::*;

verus! {

/// `std::io::Error`, the reason that a writer or a sink gives for giving
/// up. It is only passed through.
#[verifier::external_type_specification]
#[verifier::external_body]
pub struct ExIoError(std::io::Error);

/// Why a conversion stopped. None of these is retried.
#[derive(Debug)]
pub enum ConvertError {
    /// The joint that was asked for as the root is not in the hierarchy.
    JointNotFound,
    /// A joint lacks its name or its position; `joint` is its index.
    MalformedHierarchy { joint: usize },
    /// There was no bone box to build a scene from.
    EmptyInput,
    /// The finished scene could not be written out; the writer's or the
    /// sink's own error is handed on as it came.
    SerializationFailure(std::io::Error),
}

/// What the library makes of the answer of a writer or a sink: what it
/// gave where it succeeded, and `SerializationFailure` with its own error
/// where it gave up.
pub fn serialized<T>(outcome: Result<T, std::io::Error>) -> (r: Result<T, ConvertError>)
    ensures
        match outcome {
            Ok(value) => r == Ok::<T, ConvertError>(value),
            Err(e) => r == Err::<T, ConvertError>(ConvertError::SerializationFailure(e)),
        },
{
    match outcome {
        Ok(value) => Ok(value),
        Err(e) => Err(ConvertError::SerializationFailure(e)),
    }
}

} // verus!
