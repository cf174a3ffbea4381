//! Authenticated encryption of vault entries with AES-256-GCM.
//!
//! A stored blob is `base64(nonce[12] || ciphertext || tag[16])`, sealed under
//! the session key of the master passphrase.
use vstd::prelude::*;
use vstd::utf8::encode_utf8;
use aes_gcm::aead::rand_core::RngCore;
use aes_gcm::aead::Aead;
use aes_gcm::KeyInit;
use crate::encoding::{base64_decode, base64_encode, base64_encoded, utf8_string};
use crate::kdf::{derive_key_from_password, session_key};

verus! {

broadcast use {
    vstd::utf8::encode_utf8_valid_utf8,
    vstd::utf8::encode_utf8_decode_utf8,
    vstd::utf8::decode_utf8_encode_utf8,
};

/// Length in bytes of the GCM nonce at the front of a blob.
pub const NONCE_LEN: usize = 12;

/// Longest plaintext, in bytes, that AES-GCM seals.
pub const GCM_MAX_PLAINTEXT: u64 = 68719476736;

/// What aes-gcm's AES-256-GCM computes of a plaintext under a key and a
/// nonce, with no associated data: the ciphertext followed by the 16-byte tag.
pub uninterp spec fn aes256_gcm_sealed(key: Seq<u8>, nonce: Seq<u8>, plain: Seq<u8>) -> Seq<u8>;

/// Relies on aes_gcm::Aes256Gcm (`new`, then `Aead::encrypt`): it seals any
/// plaintext of at most `GCM_MAX_PLAINTEXT` bytes and refuses longer ones.
#[verifier::external_body]
fn aes256_gcm_seal(key: &[u8; 32], nonce: &[u8; 12], plain: &[u8]) -> (r: Option<Vec<u8>>)
    ensures
        r is Some <==> plain@.len() <= GCM_MAX_PLAINTEXT,
        r is Some ==> r->Some_0@ == aes256_gcm_sealed(key@, nonce@, plain@),
{
    let cipher = aes_gcm::Aes256Gcm::new(aes_gcm::Key::<aes_gcm::Aes256Gcm>::from_slice(key));
    cipher.encrypt(aes_gcm::Nonce::from_slice(nonce), plain).ok()
}

/// Relies on aes_gcm::Aes256Gcm (`new`, then `Aead::decrypt`): it gives back
/// the plaintext exactly when the tag verifies, and the plaintext it gives
/// back seals to the same ciphertext again (the same keystream and the same
/// tag over the same ciphertext). Any sealed plaintext within the length
/// limit passes the check.
#[verifier::external_body]
fn aes256_gcm_open(key: &[u8; 32], nonce: &[u8], sealed: &[u8]) -> (r: Option<Vec<u8>>)
    requires
        nonce@.len() == NONCE_LEN,
    ensures
        forall|p: Seq<u8>|
            p.len() <= GCM_MAX_PLAINTEXT && #[trigger] aes256_gcm_sealed(key@, nonce@, p) == sealed@
                ==> r is Some && r->Some_0@ == p,
        r is Some ==> aes256_gcm_sealed(key@, nonce@, r->Some_0@) == sealed@,
{
    let cipher = aes_gcm::Aes256Gcm::new(aes_gcm::Key::<aes_gcm::Aes256Gcm>::from_slice(key));
    cipher.decrypt(aes_gcm::Nonce::from_slice(nonce), sealed).ok()
}

/// Relies on aes_gcm::aead::OsRng (`fill_bytes`): 12 bytes drawn from the
/// operating system's secure random source. Nothing is known of their value.
#[verifier::external_body]
fn fresh_nonce() -> (r: [u8; 12]) {
    let mut nonce = [0u8; 12];
    aes_gcm::aead::OsRng.fill_bytes(&mut nonce);
    nonce
}

/// A plaintext short enough for AES-GCM.
pub open spec fn sealable(plain: Seq<char>) -> bool {
    encode_utf8(plain).len() <= GCM_MAX_PLAINTEXT
}

/// The blob that encrypting `plain` under `passphrase` with `nonce` stores.
pub open spec fn sealed_blob(passphrase: Seq<char>, nonce: Seq<u8>, plain: Seq<char>) -> Seq<char> {
    base64_encoded(nonce + aes256_gcm_sealed(session_key(passphrase), nonce, encode_utf8(plain)))
}

/// `blob` is an encryption of `plain` under `passphrase`, with some nonce.
pub open spec fn seals(blob: Seq<char>, passphrase: Seq<char>, plain: Seq<char>) -> bool {
    exists|n: Seq<u8>| n.len() == NONCE_LEN && #[trigger] sealed_blob(passphrase, n, plain) == blob
}

/// The characters of an optional string.
pub open spec fn text_of(r: Option<String>) -> Option<Seq<char>> {
    match r {
        Some(s) => Some(s@),
        None => None,
    }
}

/// What decrypting `blob` under `passphrase` gives: the plaintext of which
/// the blob is an encryption, and nothing where it is none. In particular a
/// blob whose bytes are shorter than a nonce gives nothing.
pub open spec fn decrypt_outcome(blob: Seq<char>, passphrase: Seq<char>, r: Option<Seq<char>>) -> bool {
    &&& forall|n: Seq<u8>, p: Seq<char>|
        n.len() == NONCE_LEN && sealable(p) && #[trigger] sealed_blob(passphrase, n, p) == blob
            ==> r == Some(p)
    &&& r is Some ==> seals(blob, passphrase, r->Some_0)
    &&& forall|v: Seq<u8>| #[trigger] base64_encoded(v) == blob && v.len() < NONCE_LEN ==> r is None
}

/// Encrypts `plain` under the session key of `password` with the given nonce.
pub fn encrypt_with_nonce(plain: &str, password: &str, nonce: &[u8; 12]) -> (r: String)
    requires
        sealable(plain@),
    ensures
        r@ == sealed_blob(password@, nonce@, plain@),
{
    let key = derive_key_from_password(password);
    let sealed = aes256_gcm_seal(&key, nonce, plain.as_bytes());
    match sealed {
        Some(mut body) => {
            let mut blob = vstd::slice::slice_to_vec(nonce.as_slice());
            blob.append(&mut body);
            base64_encode(blob.as_slice())
        },
        None => {
            proof {
                assert(false);
            }
            String::new()
        },
    }
}

/// Encrypts `plain` under the session key of `password` with a fresh random
/// nonce, and returns the base64 blob.
pub fn encrypt(plain: &str, password: &str) -> (r: String)
    requires
        sealable(plain@),
    ensures
        seals(r@, password@, plain@),
{
    let nonce = fresh_nonce();
    let r = encrypt_with_nonce(plain, password, &nonce);
    assert(sealed_blob(password@, nonce@, plain@) == r@);
    r
}

/// Decrypts a base64 blob under the session key of `password`. Bad base64, a
/// blob shorter than a nonce, a failed tag check and a plaintext that is not
/// UTF-8 all give `None`.
pub fn decrypt(cipher_b64: &str, password: &str) -> (r: Option<String>)
    ensures
        decrypt_outcome(cipher_b64@, password@, text_of(r)),
{
    let decoded = base64_decode(cipher_b64);
    let data = match decoded {
        Some(d) => d,
        None => {
            return None;
        },
    };
    if data.len() < NONCE_LEN {
        return None;
    }
    let key = derive_key_from_password(password);
    let (nonce, body) = data.as_slice().split_at(NONCE_LEN);
    assert(data@ == nonce@ + body@);
    let opened = aes256_gcm_open(&key, nonce, body);
    let plain = match opened {
        Some(p) => p,
        None => {
            proof {
                assert forall|n: Seq<u8>, p: Seq<char>|
                    n.len() == NONCE_LEN && sealable(p) && #[trigger] sealed_blob(password@, n, p)
                        == cipher_b64@ implies false by {
                    let sealed = aes256_gcm_sealed(session_key(password@), n, encode_utf8(p));
                    assert(base64_encoded(n + sealed) == cipher_b64@);
                    assert(data@ == n + sealed);
                    assert(nonce@ == n);
                    assert(body@ == sealed);
                }
            }
            return None;
        },
    };
    let r = utf8_string(plain);
    proof {
        assert forall|n: Seq<u8>, p: Seq<char>|
            n.len() == NONCE_LEN && sealable(p) && #[trigger] sealed_blob(password@, n, p)
                == cipher_b64@ implies text_of(r) == Some(p) by {
            let sealed = aes256_gcm_sealed(session_key(password@), n, encode_utf8(p));
            assert(base64_encoded(n + sealed) == cipher_b64@);
            assert(data@ == n + sealed);
            assert(nonce@ == n);
            assert(body@ == sealed);
            assert(plain@ == encode_utf8(p));
        }
        if r is Some {
            let x = r->Some_0@;
            assert(encode_utf8(x) == plain@);
            assert(sealed_blob(password@, nonce@, x) == cipher_b64@);
        }
    }
    r
}

} // verus!

verus! {

/// Decrypting what encryption produced gives the plaintext back, whatever
/// nonce was drawn.
pub proof fn lemma_round_trip(passphrase: Seq<char>, nonce: Seq<u8>, plain: Seq<char>, r: Option<Seq<char>>)
    requires
        nonce.len() == NONCE_LEN,
        sealable(plain),
        decrypt_outcome(sealed_blob(passphrase, nonce, plain), passphrase, r),
    ensures
        r == Some(plain),
{
}

/// Whatever decrypts under a passphrase is an encryption, under that
/// passphrase, of the plaintext it gives: a blob that was altered, or sealed
/// under another passphrase, decrypts only where it is itself such an
/// encryption.
pub proof fn lemma_decrypted_blob_is_authentic(blob: Seq<char>, passphrase: Seq<char>, plain: Seq<char>)
    requires
        decrypt_outcome(blob, passphrase, Some(plain)),
    ensures
        seals(blob, passphrase, plain),
{
}

/// A blob whose bytes are shorter than a nonce never decrypts.
pub proof fn lemma_short_blob_fails(bytes: Seq<u8>, passphrase: Seq<char>, r: Option<Seq<char>>)
    requires
        bytes.len() < NONCE_LEN,
        decrypt_outcome(base64_encoded(bytes), passphrase, r),
    ensures
        r is None,
{
}

} // verus!
