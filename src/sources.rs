//! What an assembly consumes: a source of keys per bucket, and the
//! narrower sources that work on 128-bit bucket values.

use vstd::prelude::*;

use crate::codec::uuid_of_bucket;

verus! {

#[verifier::external_type_specification]
#[verifier::external_body]
pub struct ExIoError(std::io::Error);

/// Gives the ordered keys of one bucket, named by its `N`-byte identifier.
/// An empty vector is a bucket without keys.
pub trait SimpleKeysSource<const N: usize> {
    fn get_keys(&self, bucket: [u8; N]) -> Result<Vec<i64>, std::io::Error>;
}

/// Gives the ordered 64-bit keys of the bucket with a 128-bit value.
pub trait UuidBigSerialsSource {
    fn get_serials(&self, bucket: u128) -> Result<Vec<i64>, std::io::Error>;
}

impl<T: UuidBigSerialsSource> SimpleKeysSource<16> for T {
    fn get_keys(&self, bucket: [u8; 16]) -> Result<Vec<i64>, std::io::Error> {
        let bucket_id: u128 = uuid_of_bucket(bucket);
        self.get_serials(bucket_id)
    }
}

/// Gives, once, a lazy sequence of 128-bit bucket values (or failures).
/// The sequence is not meant to be walked twice.
pub trait UuidSource {
    type Uuids: Iterator<Item = Result<u128, std::io::Error>>;

    fn get_uuids(&self) -> Result<Self::Uuids, std::io::Error>;
}

} // verus!
