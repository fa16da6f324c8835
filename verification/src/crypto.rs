use vstd::prelude::*;

verus! {

/// The Keccak-256 digest of a byte string.
pub uninterp spec fn keccak_of(input: Seq<u8>) -> Seq<u8>;

/// Relies on `alloy::primitives::keccak256`: the Keccak-256 digest of the
/// input bytes, a pure function of the input alone, always 32 bytes long.
#[verifier::external_body]
pub(crate) fn keccak256_bytes(input: &Vec<u8>) -> (r: Vec<u8>)
    ensures
        r@ == keccak_of(input@),
        r@.len() == 32,
{
    alloy::primitives::keccak256(input.as_slice()).to_vec()
}

/// The secp256k1 address belonging to a 32-byte private key, or `None` when
/// the bytes are not a valid secret scalar.
pub uninterp spec fn address_of_key(key: Seq<u8>) -> Option<Seq<u8>>;

/// Relies on `alloy::signers::local::PrivateKeySigner`: `from_bytes` accepts
/// a 32-byte scalar exactly when it is a valid secp256k1 secret key, and
/// `address()` returns the 20-byte address of that key; both depend on the
/// key bytes alone.
#[verifier::external_body]
pub(crate) fn key_address(key: &Vec<u8>) -> (r: Option<Vec<u8>>)
    requires
        key@.len() == 32,
    ensures
        match r {
            Some(a) => address_of_key(key@) == Some(a@) && a@.len() == 20,
            None => address_of_key(key@) is None,
        },
{
    let fixed: alloy::primitives::B256 = alloy::primitives::FixedBytes::from_slice(
        key.as_slice(),
    );
    match alloy::signers::local::PrivateKeySigner::from_bytes(&fixed) {
        Ok(signer) => Some(signer.address().to_vec()),
        Err(_) => None,
    }
}

} // verus!
