//! Key derivation: a passphrase becomes a 32-byte AES-256 key.
use vstd::prelude::*;
use vstd::utf8::encode_utf8;

verus! {

/// Salt shared by every vault installation.
pub const KDF_SALT: &'static str = "ferris-vault-salt";

/// Number of PBKDF2 iterations.
pub const KDF_ROUNDS: u32 = 100000;

/// The 32 bytes that PBKDF2-HMAC-SHA256 produces for a password, a salt and a
/// number of rounds.
pub uninterp spec fn pbkdf2_sha256_32(password: Seq<u8>, salt: Seq<u8>, rounds: nat) -> Seq<u8>;

/// The session key that belongs to a passphrase.
pub open spec fn session_key(passphrase: Seq<char>) -> Seq<u8> {
    pbkdf2_sha256_32(encode_utf8(passphrase), encode_utf8(KDF_SALT@), KDF_ROUNDS as nat)
}

/// Relies on pbkdf2::pbkdf2_hmac::<sha2::Sha256>: it fills the 32-byte buffer
/// with the derived key, a function of password, salt and rounds alone.
#[verifier::external_body]
fn pbkdf2_sha256(password: &[u8], salt: &[u8], rounds: u32) -> (r: [u8; 32])
    ensures
        r@ == pbkdf2_sha256_32(password@, salt@, rounds as nat),
{
    let mut key = [0u8; 32];
    pbkdf2::pbkdf2_hmac::<sha2::Sha256>(password, salt, rounds, &mut key);
    key
}

/// Derives the session key of `password` with PBKDF2-HMAC-SHA256, the fixed
/// salt and 100,000 rounds.
pub fn derive_key_from_password(password: &str) -> (r: [u8; 32])
    ensures
        r@ == session_key(password@),
        r@.len() == 32,
{
    pbkdf2_sha256(password.as_bytes(), KDF_SALT.as_bytes(), KDF_ROUNDS)
}

/// Deriving a key is deterministic: equal passphrases give the same 32 bytes.
pub proof fn lemma_derivation_deterministic(a: Seq<char>, b: Seq<char>)
    requires
        a == b,
    ensures
        session_key(a) == session_key(b),
{
}

} // verus!
