use chacha20poly1305::aead::{Aead, KeyInit};
use chacha20poly1305::{ChaCha20Poly1305, Key, Nonce};
use passgen_crypt::{decrypt, derive_key, encrypt, encrypt_with_nonce, CryptoError};

fn hex(bytes: &[u8]) -> String {
    bytes.iter().map(|b| format!("{:02x}", b)).collect()
}

#[test]
fn derive_key_is_sha256_of_passphrase() {
    assert_eq!(
        hex(&derive_key("abc")),
        "ba7816bf8f01cfea414140de5dae2223b00361a396177a9cb410ff61f20015ad"
    );
}

#[test]
fn derive_key_of_empty_passphrase() {
    assert_eq!(
        hex(&derive_key("")),
        "e3b0c44298fc1c149afbf4c8996fb92427ae41e4649b934ca495991b7852b855"
    );
}

#[test]
fn derive_key_is_deterministic() {
    let a = derive_key("my-secret-key");
    let b = derive_key("my-secret-key");
    assert_eq!(a, b);
    assert_eq!(a.len(), 32);
    assert_ne!(a, derive_key("wrong-key"));
}

#[test]
fn concrete_scenario() {
    let blob = encrypt("Tr0ub4dor&3", "my-secret-key").unwrap();
    assert_eq!(blob.len(), 39);
    assert_eq!(decrypt(blob.clone(), "my-secret-key").unwrap(), "Tr0ub4dor&3");
    assert_eq!(decrypt(blob, "wrong-key"), Err(CryptoError::Authentication));
}

#[test]
fn round_trip_various_texts() {
    for p in ["a", "hunter2", "pässwörd ✓ 🔑", "x".repeat(1000).as_str()] {
        let blob = encrypt(p, "vault key").unwrap();
        assert_eq!(blob.len(), 12 + p.len() + 16);
        assert_eq!(decrypt(blob, "vault key").unwrap(), p);
    }
}

#[test]
fn empty_plaintext_gives_minimum_blob() {
    let blob = encrypt("", "k").unwrap();
    assert_eq!(blob.len(), 28);
    assert_eq!(decrypt(blob, "k").unwrap(), "");
}

#[test]
fn empty_passphrase_round_trips() {
    let blob = encrypt("secret", "").unwrap();
    assert_eq!(decrypt(blob, "").unwrap(), "secret");
}

#[test]
fn ciphertext_differs_from_plaintext() {
    let nonce = [7u8; 12];
    let blob = encrypt_with_nonce("plain text here", "k", &nonce).unwrap();
    assert_eq!(&blob[..12], &nonce[..]);
    assert_ne!(&blob[12..12 + 15], "plain text here".as_bytes());
}

#[test]
fn fixed_nonce_is_deterministic_and_key_dependent() {
    let nonce = [1u8; 12];
    let a = encrypt_with_nonce("pw", "k1", &nonce).unwrap();
    let b = encrypt_with_nonce("pw", "k1", &nonce).unwrap();
    let c = encrypt_with_nonce("pw", "k2", &nonce).unwrap();
    assert_eq!(a, b);
    assert_ne!(a, c);
    assert_eq!(decrypt(a, "k1").unwrap(), "pw");
    assert_eq!(decrypt(c, "k2").unwrap(), "pw");
}

#[test]
fn tampering_any_bit_is_detected() {
    let blob = encrypt("Tr0ub4dor&3", "my-secret-key").unwrap();
    for i in 0..blob.len() {
        for bit in 0..8 {
            let mut t = blob.clone();
            t[i] ^= 1 << bit;
            assert_eq!(decrypt(t, "my-secret-key"), Err(CryptoError::Authentication));
        }
    }
}

#[test]
fn wrong_key_is_rejected() {
    let blob = encrypt("password", "k1").unwrap();
    assert_eq!(decrypt(blob.clone(), "k2"), Err(CryptoError::Authentication));
    assert_eq!(decrypt(blob, "k1 "), Err(CryptoError::Authentication));
}

#[test]
fn nonces_differ_between_encryptions() {
    let a = encrypt("same", "same key").unwrap();
    let b = encrypt("same", "same key").unwrap();
    assert_ne!(a, b);
    assert_ne!(&a[..12], &b[..12]);
    assert_eq!(decrypt(a, "same key").unwrap(), "same");
    assert_eq!(decrypt(b, "same key").unwrap(), "same");
}

#[test]
fn short_blobs_are_malformed() {
    for n in 0..12 {
        assert_eq!(decrypt(vec![0u8; n], "k"), Err(CryptoError::MalformedInput));
    }
}

#[test]
fn nonce_only_blob_is_not_authentic() {
    for n in 12..28 {
        assert_eq!(decrypt(vec![0u8; n], "k"), Err(CryptoError::Authentication));
    }
}

#[test]
fn authentic_non_utf8_plaintext_is_encoding_error() {
    let key = derive_key("k");
    let nonce = [3u8; 12];
    let cipher = ChaCha20Poly1305::new(Key::from_slice(&key));
    let sealed = cipher.encrypt(Nonce::from_slice(&nonce), &[0xffu8, 0xfe, 0x00][..]).unwrap();
    let mut blob = nonce.to_vec();
    blob.extend_from_slice(&sealed);
    assert_eq!(decrypt(blob.clone(), "k"), Err(CryptoError::Encoding));
    assert_eq!(decrypt(blob, "other"), Err(CryptoError::Authentication));
}
