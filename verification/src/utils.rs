//! Small helpers shared by the parser and the node implementations.

use vstd::prelude::*;

verus! {

/// Equality of two string slices.
///
/// Calls `str`'s `==` from the standard library; the contract claims that it
/// holds exactly when both slices are the same sequence of characters.
#[verifier::external_body]
pub(crate) fn str_eq(a: &str, b: &str) -> (r: bool)
    ensures
        r == (a@ == b@),
{
    a == b
}


/// A string slice over `bytes`, if they are UTF-8.
///
/// Calls `core::str::from_utf8`; the contract claims what its documentation
/// says: it succeeds exactly on UTF-8, and the slice it returns holds the
/// text that the bytes encode.
#[verifier::external_body]
pub(crate) fn str_from_utf8(bytes: &[u8]) -> (r: Option<&str>)
    ensures
        r is Some <==> vstd::utf8::valid_utf8(bytes@),
        r matches Some(s) ==> s@ == vstd::utf8::decode_utf8(bytes@),
{
    core::str::from_utf8(bytes).ok()
}

} // verus!
