use aes_gcm::aead::Aead;
use aes_gcm::KeyInit;
use base64::Engine;
use ferris_vault::cipher::{decrypt, encrypt, encrypt_with_nonce};
use ferris_vault::kdf::derive_key_from_password;
use ferris_vault::master_key::{constant_time_eq, hash_master_key};

fn to_hex(bytes: &[u8]) -> String {
    bytes.iter().map(|b| format!("{:02x}", b)).collect()
}

fn decode(blob: &str) -> Vec<u8> {
    base64::engine::general_purpose::STANDARD.decode(blob).unwrap()
}

fn encode(bytes: &[u8]) -> String {
    base64::engine::general_purpose::STANDARD.encode(bytes)
}

#[test]
fn derived_key_matches_pbkdf2_vector() {
    let key = derive_key_from_password("masterpass123");
    assert_eq!(
        to_hex(&key),
        "cecc70f3f51965558736ee49036e6fc04d28f76748c7d76ab182257ef3b93ef1"
    );
}

#[test]
fn derivation_is_deterministic() {
    let a = derive_key_from_password("correct horse");
    let b = derive_key_from_password("correct horse");
    assert_eq!(a, b);
    assert_eq!(a.len(), 32);
    assert_ne!(a, derive_key_from_password("correct horsf"));
}

#[test]
fn master_hash_is_base64_sha256() {
    assert_eq!(hash_master_key("password"), "XohImNooBHFR0OVvjcYpJ3NgPQ1qq73WKhHvch0VQtg=");
    assert_eq!(hash_master_key("masterpass123"), "sqUU+KYveUPxQEPwEHGljEKaR6Rv+75Pv5XY5HwTp6g=");
}

#[test]
fn sealing_with_a_known_nonce_matches_aes_gcm_vector() {
    let blob = encrypt_with_nonce("S3cr3t!", "masterpass123", &[0u8; 12]);
    assert_eq!(blob, "AAAAAAAAAAAAAAAAVwUI4ijVDm7bw8GNe2wiPgsFmIqLfPQ=");
}

#[test]
fn blob_layout_is_nonce_then_ciphertext_and_tag() {
    let nonce = [7u8; 12];
    let blob = encrypt_with_nonce("hello", "pass", &nonce);
    let bytes = decode(&blob);
    assert_eq!(bytes.len(), 12 + 5 + 16);
    assert_eq!(&bytes[..12], &nonce);
    assert_ne!(&bytes[12..17], b"hello");
}

#[test]
fn round_trip() {
    for plain in ["", "S3cr3t!", "contraseña ✓ 密码"] {
        let blob = encrypt(plain, "masterpass123");
        assert_eq!(decrypt(&blob, "masterpass123"), Some(plain.to_string()));
    }
}

#[test]
fn tampered_blob_is_rejected() {
    let blob = encrypt("S3cr3t!", "masterpass123");
    let bytes = decode(&blob);
    let last = bytes.len() - 1;
    for i in [0, 11, 12, 15, last - 15, last] {
        let mut altered = bytes.clone();
        altered[i] ^= 0x01;
        assert_eq!(decrypt(&encode(&altered), "masterpass123"), None);
    }
}

#[test]
fn wrong_key_is_rejected() {
    let blob = encrypt("S3cr3t!", "masterpass123");
    assert_eq!(decrypt(&blob, "masterpass124"), None);
    assert_eq!(decrypt(&blob, ""), None);
}

#[test]
fn nonces_are_fresh() {
    let a = encrypt("S3cr3t!", "masterpass123");
    let b = encrypt("S3cr3t!", "masterpass123");
    assert_ne!(a, b);
    assert_ne!(decode(&a)[..12], decode(&b)[..12]);
}

#[test]
fn short_blob_fails_without_panic() {
    for n in 0..12 {
        let blob = encode(&vec![0u8; n]);
        assert_eq!(decrypt(&blob, "masterpass123"), None);
    }
    assert_eq!(decrypt(&encode(&[0u8; 12]), "masterpass123"), None);
}

#[test]
fn bad_base64_fails() {
    assert_eq!(decrypt("not base64!!", "masterpass123"), None);
    assert_eq!(decrypt("AAAAAAAAAAAAAAAAVwUI4ijVDm7bw8GNe2wiPgsFmIqLfPQ", "masterpass123"), None);
}

#[test]
fn non_utf8_plaintext_fails() {
    let key = derive_key_from_password("masterpass123");
    let cipher = aes_gcm::Aes256Gcm::new_from_slice(&key).unwrap();
    let nonce = [3u8; 12];
    let sealed = cipher
        .encrypt(aes_gcm::Nonce::from_slice(&nonce), &[0xffu8, 0xfe, 0x41][..])
        .unwrap();
    let mut bytes = nonce.to_vec();
    bytes.extend(sealed);
    assert_eq!(decrypt(&encode(&bytes), "masterpass123"), None);
}

#[test]
fn constant_time_comparison() {
    assert!(constant_time_eq(b"abc", b"abc"));
    assert!(!constant_time_eq(b"abc", b"abd"));
    assert!(!constant_time_eq(b"abc", b"ab"));
    assert!(constant_time_eq(b"", b""));
}
