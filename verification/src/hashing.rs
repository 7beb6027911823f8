use vstd::prelude::*;

verus! {

/// The lowercase hex digest blake3 assigns to a byte sequence. A function of
/// the bytes alone: the same buffer always hashes to the same digest.
pub uninterp spec fn blake3_hex_of(bytes: Seq<u8>) -> Seq<char>;

/// Relies on blake3::hash and blake3::Hash::to_hex: a 32-byte digest of the
/// input, rendered as 64 lowercase hex characters, determined by the input
/// bytes alone.
#[verifier::external_body]
pub(crate) fn content_hash_hex(bytes: &Vec<u8>) -> (r: String)
    ensures
        r@ == blake3_hex_of(bytes@),
        r@.len() == 64,
{
    let digest = blake3::hash(bytes.as_slice());
    digest.to_hex().as_str().to_string()
}

} // verus!
