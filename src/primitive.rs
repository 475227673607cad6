//! The TLSH fuzzy-hash primitive of the `tlsh` crate, reached through a few
//! trusted items. Digests cross this boundary in their binary form: one
//! checksum byte, the length, the quartiles, then 32 body bytes.

use vstd::prelude::*;
use tlsh::FuzzyHashType;

verus! {

#[verifier::external_type_specification]
#[verifier::external_body]
pub struct ExGeneratorError(tlsh::errors::GeneratorError);

/// Whether the TLSH generator gives a digest for these bytes (it refuses too
/// little data and data whose buckets stay mostly empty).
pub uninterp spec fn tlsh_accepts(data: Seq<u8>) -> bool;

/// The binary form of the TLSH digest of these bytes.
pub uninterp spec fn tlsh_digest_of(data: Seq<u8>) -> Seq<u8>;

/// The TLSH distance between two digests given in binary form.
pub uninterp spec fn tlsh_distance(a: Seq<u8>, b: Seq<u8>) -> u32;

/// Relies on `tlsh::hash_buf`: the digest of a buffer, or the generator's
/// refusal, both of which depend on the bytes alone; the digest is handed
/// back in its binary form (`FuzzyHashType::store_into_bytes`, which fills
/// `SIZE_IN_BYTES`, 35, bytes).
#[verifier::external_body]
pub(crate) fn hash_buf(data: &[u8]) -> (r: Result<Vec<u8>, tlsh::errors::GeneratorError>)
    ensures
        r is Ok <==> tlsh_accepts(data@),
        r matches Ok(b) ==> b@ == tlsh_digest_of(data@),
        r matches Ok(b) ==> b@.len() == 35,
{
    tlsh::hash_buf(data).map(|h| {
        let mut out = vec![0u8; tlsh::Tlsh::SIZE_IN_BYTES];
        let _ = h.store_into_bytes(&mut out);
        out
    })
}

/// Relies on `FuzzyHashType::compare` of two digests read from their binary
/// form (`TryFrom<&[u8]>`, which refuses only a slice whose length is not
/// 35): the TLSH distance, which depends on the two digests alone and is 0
/// between a digest and itself (each of its parts measures a difference).
#[verifier::external_body]
pub(crate) fn compare(a: &[u8], b: &[u8]) -> (r: u32)
    requires
        a@.len() == 35,
        b@.len() == 35,
    ensures
        r == tlsh_distance(a@, b@),
        a@ == b@ ==> r == 0,
{
    let a = tlsh::Tlsh::try_from(a).unwrap();
    let b = tlsh::Tlsh::try_from(b).unwrap();
    a.compare(&b)
}

} // verus!
