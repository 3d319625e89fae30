use crate::bytes::B256;
use crate::preimage::{sha256, sha256_of};
use vstd::prelude::*;

verus! {

/// The version byte of a KZG versioned hash.
pub const VERSIONED_HASH_VERSION_KZG: u8 = 1;

/// The versioned hash of a KZG commitment: its SHA-256 digest with the
/// first byte replaced by the version.
pub open spec fn versioned_hash(commitment: Seq<u8>) -> Seq<u8> {
    seq![VERSIONED_HASH_VERSION_KZG] + sha256_of(commitment).subrange(1, 32)
}

/// Why a fetched blob was refused.
#[derive(Clone, Copy, Debug, PartialEq, Eq, Structural)]
pub enum BlobError {
    /// The blob's commitment does not hash to the requested versioned hash.
    CommitmentMismatch,
}

/// The versioned hash of a KZG commitment.
pub fn kzg_to_versioned_hash(commitment: &[u8]) -> (r: B256)
    ensures
        r@ == versioned_hash(commitment@),
{
    let digest = sha256(commitment);
    let mut bytes = digest.bytes;
    bytes[0] = VERSIONED_HASH_VERSION_KZG;
    let r = B256 { bytes };
    assert(r@ =~= versioned_hash(commitment@));
    r
}

/// Checks that a blob's commitment is the one the requested versioned hash
/// names.
pub fn check_blob_commitment(commitment: &[u8], expected: &B256) -> (r: Result<(), BlobError>)
    ensures
        r is Ok <==> versioned_hash(commitment@) == expected@,
        r is Err ==> r->Err_0 == BlobError::CommitmentMismatch,
{
    let actual = kzg_to_versioned_hash(commitment);
    if actual.same(expected) {
        Ok(())
    } else {
        Err(BlobError::CommitmentMismatch)
    }
}

} // verus!
