use chacha20poly1305::aead::rand_core::RngCore;
use chacha20poly1305::aead::{Aead, KeyInit, OsRng};
use chacha20poly1305::{ChaCha20Poly1305, Key, Nonce};
use vstd::prelude::*;
use vstd::utf8::{
    decode_utf8, decode_utf8_encode_utf8, encode_utf8, encode_utf8_decode_utf8,
    encode_utf8_valid_utf8, valid_utf8,
};

use crate::kdf::{derive_key, key_of};

verus! {

/// Length of the random nonce that starts every blob.
pub const NONCE_LEN: usize = 12;

/// Length of the authentication tag that ends every blob.
pub const TAG_LEN: usize = 16;

/// The longest message, in bytes, that the cipher can seal or open: the
/// ChaCha20 block counter starts at 1 for the message and stops before
/// `u32::MAX`, which leaves `u32::MAX - 1` blocks of 64 bytes.
pub const MAX_MESSAGE_LEN: u64 = 274_877_906_816;

/// Why an encryption or a decryption failed.
#[derive(Debug, Clone, Copy, PartialEq, Eq, Structural)]
pub enum CryptoError {
    /// The nonce could not be drawn, or the plaintext is too long to seal.
    Encryption,
    /// The blob is too short to hold a nonce.
    MalformedInput,
    /// The blob is not authentic under the key: wrong passphrase or altered
    /// bytes, which are not told apart.
    Authentication,
    /// The blob is authentic but its plaintext is not UTF-8 text.
    Encoding,
}

/// What ChaCha20-Poly1305 writes for `plaintext` under `key` and `nonce`, with
/// no associated data: the ciphertext followed by its tag.
pub uninterp spec fn sealed_of(key: Seq<u8>, nonce: Seq<u8>, plaintext: Seq<u8>) -> Seq<u8>;

/// The nonce at the front of a blob.
pub open spec fn nonce_part(blob: Seq<u8>) -> Seq<u8> {
    blob.subrange(0, NONCE_LEN as int)
}

/// What follows the nonce in a blob: the ciphertext and its tag.
pub open spec fn sealed_part(blob: Seq<u8>) -> Seq<u8> {
    blob.subrange(NONCE_LEN as int, blob.len() as int)
}

/// `blob` is the nonce followed by `plaintext` sealed under that nonce and
/// the key of `passphrase`: the ciphertext, as long as the plaintext, then
/// the tag.
pub open spec fn seals(blob: Seq<u8>, passphrase: Seq<char>, plaintext: Seq<u8>) -> bool {
    &&& blob.len() >= NONCE_LEN
    &&& plaintext.len() <= MAX_MESSAGE_LEN
    &&& sealed_part(blob).len() == plaintext.len() + TAG_LEN
    &&& sealed_part(blob) == sealed_of(key_of(passphrase), nonce_part(blob), plaintext)
}

/// `blob` is authentic under `passphrase`: it seals some plaintext.
pub open spec fn authentic(blob: Seq<u8>, passphrase: Seq<char>) -> bool {
    exists|m: Seq<u8>| seals(blob, passphrase, m)
}

/// The blob for `password` under `passphrase` with the given nonce.
pub open spec fn encrypted_blob(password: Seq<char>, passphrase: Seq<char>, nonce: Seq<u8>) -> Seq<
    u8,
> {
    nonce + sealed_of(key_of(passphrase), nonce, encode_utf8(password))
}

/// `blob` is an encryption of the text `password` under `passphrase`.
pub open spec fn is_encryption_of(blob: Seq<u8>, passphrase: Seq<char>, password: Seq<char>) -> bool {
    seals(blob, passphrase, encode_utf8(password))
}

/// Relies on `OsRng::try_fill_bytes` (rand_core, re-exported by aead): fills
/// a nonce from the operating system's random source, or reports that the
/// source failed. Nothing is known of the bytes drawn.
#[verifier::external_body]
fn random_nonce() -> (r: Option<[u8; 12]>) {
    let mut nonce = [0u8; 12];
    match OsRng.try_fill_bytes(&mut nonce) {
        Ok(()) => Some(nonce),
        Err(_) => None,
    }
}

/// Relies on `Aead::encrypt` of `ChaCha20Poly1305` with no associated data:
/// for a plaintext of at most `MAX_MESSAGE_LEN` bytes it returns the
/// ciphertext, as long as the plaintext, followed by the 16-byte tag (a
/// longer one is refused or runs the keystream out, which panics).
#[verifier::external_body]
fn seal(key: &[u8; 32], nonce: &[u8; 12], plaintext: &[u8]) -> (r: Option<Vec<u8>>)
    requires
        plaintext@.len() <= MAX_MESSAGE_LEN,
    ensures
        r is Some,
        r is Some ==> r->0@ == sealed_of(key@, nonce@, plaintext@),
        r is Some ==> r->0@.len() == plaintext@.len() + TAG_LEN,
{
    let cipher = ChaCha20Poly1305::new(Key::from_slice(key));
    cipher.encrypt(Nonce::from_slice(nonce), plaintext).ok()
}

/// Relies on `Aead::decrypt` of `ChaCha20Poly1305` with no associated data.
/// It checks the Poly1305 tag over the ciphertext and only then strips the
/// keystream, so it succeeds exactly on what `Aead::encrypt` writes under the
/// same key and nonce, and then returns the plaintext that was sealed: the
/// input less its 16-byte tag. Inputs longer than `MAX_MESSAGE_LEN` plus the
/// tag are left out: an authentic one would run the keystream out and panic.
#[verifier::external_body]
fn open(key: &[u8; 32], nonce: &[u8], sealed: &[u8]) -> (r: Option<Vec<u8>>)
    requires
        nonce@.len() == NONCE_LEN,
        sealed@.len() <= MAX_MESSAGE_LEN + TAG_LEN,
    ensures
        r is Some ==> r->0@.len() <= MAX_MESSAGE_LEN && sealed@.len() == r->0@.len() + TAG_LEN
            && sealed@ == sealed_of(key@, nonce@, r->0@),
        forall|m: Seq<u8>|
            m.len() <= MAX_MESSAGE_LEN && sealed@ == #[trigger] sealed_of(key@, nonce@, m) ==> (
            r is Some && r->0@ == m),
{
    let cipher = ChaCha20Poly1305::new(Key::from_slice(key));
    cipher.decrypt(Nonce::from_slice(nonce), sealed).ok()
}

/// Relies on `String::from_utf8`: the bytes as text when they are UTF-8,
/// nothing otherwise.
#[verifier::external_body]
fn text_from_utf8(bytes: Vec<u8>) -> (r: Option<String>)
    ensures
        r is Some <==> valid_utf8(bytes@),
        r is Some ==> r->0@ == decode_utf8(bytes@),
{
    String::from_utf8(bytes).ok()
}

/// Encrypts `password` under the key of `passphrase` with the given nonce,
/// and returns the blob: the nonce, then the ciphertext and its tag.
pub fn encrypt_with_nonce(password: &str, passphrase: &str, nonce: &[u8; 12]) -> (r: Result<
    Vec<u8>,
    CryptoError,
>)
    ensures
        r is Ok <==> encode_utf8(password@).len() <= MAX_MESSAGE_LEN,
        r is Ok ==> r->Ok_0@ == encrypted_blob(password@, passphrase@, nonce@),
        r is Ok ==> r->Ok_0@.len() == NONCE_LEN + encode_utf8(password@).len() + TAG_LEN,
        r is Err ==> r->Err_0 == CryptoError::Encryption,
{
    let bytes = password.as_bytes();
    if bytes.len() as u64 > MAX_MESSAGE_LEN {
        return Err(CryptoError::Encryption);
    }
    let key = derive_key(passphrase);
    match seal(&key, nonce, bytes) {
        None => Err(CryptoError::Encryption),
        Some(sealed) => {
            let mut blob: Vec<u8> = Vec::new();
            blob.extend_from_slice(nonce.as_slice());
            blob.extend_from_slice(sealed.as_slice());
            assert(blob@ =~= nonce@ + sealed@);
            Ok(blob)
        },
    }
}

/// Every blob that `encrypt_with_nonce` returns for a password (whatever the
/// nonce) is an encryption of that password under the same passphrase; so
/// `decrypt` of it with that passphrase returns the password.
pub proof fn lemma_round_trip(password: Seq<char>, passphrase: Seq<char>, nonce: Seq<u8>)
    requires
        nonce.len() == NONCE_LEN,
        encode_utf8(password).len() <= MAX_MESSAGE_LEN,
        encrypted_blob(password, passphrase, nonce).len() == NONCE_LEN + encode_utf8(password).len()
            + TAG_LEN,
    ensures
        is_encryption_of(encrypted_blob(password, passphrase, nonce), passphrase, password),
{
    let blob = encrypted_blob(password, passphrase, nonce);
    assert(nonce_part(blob) =~= nonce);
    assert(sealed_part(blob) =~= sealed_of(key_of(passphrase), nonce, encode_utf8(password)));
}

/// The key depends on the passphrase alone, so equal passphrases give equal
/// keys, and with the same nonce the same password gives the same blob.
pub proof fn lemma_derivation_deterministic(
    password: Seq<char>,
    passphrase1: Seq<char>,
    passphrase2: Seq<char>,
    nonce: Seq<u8>,
)
    requires
        passphrase1 == passphrase2,
    ensures
        key_of(passphrase1) == key_of(passphrase2),
        encrypted_blob(password, passphrase1, nonce) == encrypted_blob(password, passphrase2, nonce),
{
}

/// Encrypts `password` under the key of `passphrase` with a fresh random
/// nonce, and returns the blob: the nonce, then the ciphertext and its tag.
pub fn encrypt(password: &str, passphrase: &str) -> (r: Result<Vec<u8>, CryptoError>)
    ensures
        r is Ok ==> is_encryption_of(r->Ok_0@, passphrase@, password@),
        r is Ok ==> r->Ok_0@.len() == NONCE_LEN + encode_utf8(password@).len() + TAG_LEN,
        encode_utf8(password@).len() > MAX_MESSAGE_LEN ==> r is Err,
        r is Err ==> r->Err_0 == CryptoError::Encryption,
{
    match random_nonce() {
        None => Err(CryptoError::Encryption),
        Some(nonce) => {
            let r = encrypt_with_nonce(password, passphrase, &nonce);
            proof {
                if r is Ok {
                    lemma_round_trip(password@, passphrase@, nonce@);
                }
            }
            r
        },
    }
}

/// Decrypts a blob written by `encrypt` under the key of `passphrase`.
///
/// A blob too short for a nonce is malformed; one that seals nothing under
/// the key is not authentic, whether the passphrase or the bytes are at
/// fault; an authentic blob whose plaintext is not UTF-8 is an encoding
/// error. Otherwise the text that the blob seals is returned.
pub fn decrypt(blob: Vec<u8>, passphrase: &str) -> (r: Result<String, CryptoError>)
    ensures
        blob@.len() < NONCE_LEN <==> r == Err::<String, CryptoError>(CryptoError::MalformedInput),
        r == Err::<String, CryptoError>(CryptoError::Authentication) <==> (blob@.len() >= NONCE_LEN
            && !authentic(blob@, passphrase@)),
        r == Err::<String, CryptoError>(CryptoError::Encoding) <==> exists|m: Seq<u8>|
            seals(blob@, passphrase@, m) && !valid_utf8(m),
        r is Ok ==> is_encryption_of(blob@, passphrase@, r->Ok_0@),
        forall|p: Seq<char>|
            is_encryption_of(blob@, passphrase@, p) ==> (r is Ok && r->Ok_0@ == p),
{
    broadcast use encode_utf8_decode_utf8, decode_utf8_encode_utf8, encode_utf8_valid_utf8;

    if blob.len() < NONCE_LEN {
        return Err(CryptoError::MalformedInput);
    }
    if (blob.len() - NONCE_LEN) as u64 > MAX_MESSAGE_LEN + TAG_LEN as u64 {
        return Err(CryptoError::Authentication);
    }
    let key = derive_key(passphrase);
    let (nonce, sealed) = blob.as_slice().split_at(NONCE_LEN);
    assert(nonce@ == nonce_part(blob@));
    assert(sealed@ == sealed_part(blob@));
    let opened = open(&key, nonce, sealed);
    assert forall|p: Seq<char>| is_encryption_of(blob@, passphrase@, p) implies (opened is Some
        && opened->0@ == encode_utf8(p)) by {
        assert(sealed@ == sealed_of(key@, nonce@, encode_utf8(p)));
    }
    match opened {
        None => Err(CryptoError::Authentication),
        Some(plain) => {
            assert(seals(blob@, passphrase@, plain@));
            match text_from_utf8(plain) {
                Some(text) => Ok(text),
                None => Err(CryptoError::Encoding),
            }
        },
    }
}

} // verus!
