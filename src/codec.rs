//! Conversion between a 128-bit bucket identifier and its 16 big-endian bytes.

use vstd::prelude::*;

verus! {

/// The 16 bytes of `u`, most significant first.
pub open spec fn be_bytes(u: u128) -> Seq<u8> {
    Seq::new(16, |i: int| ((u >> (((15 - i) * 8) as u128)) & 0xff) as u8)
}

/// Relies on `u128::to_be_bytes`: the bytes of the value, most significant first.
#[verifier::external_body]
fn u128_to_be_bytes(u: u128) -> (r: [u8; 16])
    ensures
        r@ == be_bytes(u),
{
    u.to_be_bytes()
}

/// Relies on `u128::from_be_bytes`: the value whose bytes, most significant
/// first, are the given ones.
#[verifier::external_body]
fn u128_from_be_bytes(b: [u8; 16]) -> (r: u128)
    ensures
        be_bytes(r) == b@,
{
    u128::from_be_bytes(b)
}

/// The fixed-width identifier of a 128-bit bucket value.
pub fn bucket_of_uuid(u: u128) -> (r: [u8; 16])
    ensures
        r@ == be_bytes(u),
{
    u128_to_be_bytes(u)
}

/// The 128-bit bucket value of a fixed-width identifier.
pub fn uuid_of_bucket(b: [u8; 16]) -> (r: u128)
    ensures
        be_bytes(r) == b@,
{
    u128_from_be_bytes(b)
}

/// Turns one fallible 128-bit bucket value into a fallible identifier,
/// passing a failure on unchanged.
pub fn bucket_item_of_uuid(item: Result<u128, std::io::Error>) -> (r: Result<[u8; 16], std::io::Error>)
    ensures
        item matches Ok(u) ==> r matches Ok(b) && b@ == be_bytes(u),
        item matches Err(e) ==> r matches Err(e2) && e2 == e,
{
    match item {
        Ok(u) => Ok(bucket_of_uuid(u)),
        Err(e) => Err(e),
    }
}

} // verus!
