use sha2::Digest;
use vstd::prelude::*;
use vstd::utf8::encode_utf8;

verus! {

/// The SHA-256 digest of a byte string.
pub uninterp spec fn digest_of(data: Seq<u8>) -> Seq<u8>;

/// Relies on `sha2::Sha256::digest`: the 32-byte SHA-256 digest of `data`,
/// which depends on the bytes alone.
#[verifier::external_body]
fn sha256(data: &[u8]) -> (r: [u8; 32])
    ensures
        r@ == digest_of(data@),
{
    sha2::Sha256::digest(data).into()
}

/// The key that a passphrase stands for: the digest of its UTF-8 bytes.
pub open spec fn key_of(passphrase: Seq<char>) -> Seq<u8> {
    digest_of(encode_utf8(passphrase))
}

/// Derives the 32-byte cipher key from a passphrase.
///
/// The derivation is one fast hash with no salt: equal passphrases give equal
/// keys, so data sealed earlier stays readable, but it does not slow down an
/// offline guess of the passphrase itself.
pub fn derive_key(passphrase: &str) -> (key: [u8; 32])
    ensures
        key@ == key_of(passphrase@),
{
    sha256(passphrase.as_bytes())
}

} // verus!
