//! Arrays of the standard library.
use vstd::prelude::*;

verus! {

/// `std::array::TryFromSliceError`.
#[verifier::external_type_specification]
#[verifier::external_body]
pub struct ExTryFromSliceError(std::array::TryFromSliceError);

/// `<[u8; 32]>::try_from(&[u8])`: copies a slice of exactly that length.
#[verifier::external_body]
pub(crate) fn to_array(value: &[u8]) -> (array: Result<[u8; 32], std::array::TryFromSliceError>)
    ensures
        array is Ok <==> value@.len() == 32,
        array matches Ok(array) ==> array@ == value@,
{
    <[u8; 32]>::try_from(value)
}

} // verus!
