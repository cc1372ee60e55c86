//! Symmetric encryption at rest for a password store.
//!
//! A passphrase is turned into a 32-byte key, a password is sealed with
//! ChaCha20-Poly1305 under a fresh random nonce, and the nonce is stored in
//! front of the sealed bytes.
mod cipher;
mod kdf;

pub use cipher::{
    authentic, decrypt, encrypt, encrypt_with_nonce, encrypted_blob, is_encryption_of,
    lemma_derivation_deterministic, lemma_round_trip,
    nonce_part, sealed_of, sealed_part, seals, CryptoError, MAX_MESSAGE_LEN, NONCE_LEN, TAG_LEN,
};
pub use kdf::{derive_key, digest_of, key_of};
