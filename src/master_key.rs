//! The master-key record: a one-way hash of the passphrase, never the
//! passphrase itself.
use vstd::prelude::*;
use vstd::utf8::{decode_utf8, encode_utf8};
use sha2::Digest;
use crate::encoding::{base64_encode, base64_encoded};

verus! {

/// The 32-byte SHA-256 digest of a byte sequence.
pub uninterp spec fn sha256_digest(data: Seq<u8>) -> Seq<u8>;

/// The stored record of a passphrase: base64 of SHA-256 of its UTF-8 bytes.
pub open spec fn master_hash(passphrase: Seq<char>) -> Seq<char> {
    base64_encoded(sha256_digest(encode_utf8(passphrase)))
}

/// Relies on sha2::Sha256 (`new`, `update`, `finalize`): the digest of the
/// bytes.
#[verifier::external_body]
fn sha256(data: &[u8]) -> (r: [u8; 32])
    ensures
        r@ == sha256_digest(data@),
{
    let mut hasher = sha2::Sha256::new();
    hasher.update(data);
    hasher.finalize().into()
}

/// The master-key record of `password`: base64 of the SHA-256 digest of its
/// UTF-8 bytes.
pub fn hash_master_key(password: &str) -> (r: String)
    ensures
        r@ == master_hash(password@),
{
    let digest = sha256(password.as_bytes());
    base64_encode(digest.as_slice())
}

} // verus!

verus! {

broadcast use {vstd::utf8::encode_utf8_valid_utf8, vstd::utf8::encode_utf8_decode_utf8};

/// Shortest passphrase accepted, in bytes.
pub const MIN_PASSPHRASE_LEN: usize = 4;

/// Why an authentication step was refused.
#[derive(PartialEq, Eq, Structural, Debug, Clone, Copy)]
pub enum AuthError {
    /// The passphrase has fewer than `MIN_PASSPHRASE_LEN` bytes.
    PassphraseTooShort,
    /// The passphrase does not match the record, or there is no record yet.
    InvalidPassphrase,
}

/// A passphrase that authentication refuses before hashing it.
pub open spec fn too_short(passphrase: Seq<char>) -> bool {
    encode_utf8(passphrase).len() < MIN_PASSPHRASE_LEN
}

/// Compares two byte slices in time that depends on their lengths only.
pub fn constant_time_eq(a: &[u8], b: &[u8]) -> (r: bool)
    ensures
        r == (a@ == b@),
{
    if a.len() != b.len() {
        return false;
    }
    let mut diff: u8 = 0;
    let mut i: usize = 0;
    assert(a@.subrange(0, 0) =~= b@.subrange(0, 0));
    while i < a.len()
        invariant
            i <= a@.len(),
            a@.len() == b@.len(),
            (diff == 0) == (a@.subrange(0, i as int) == b@.subrange(0, i as int)),
        decreases a@.len() - i,
    {
        let x = a[i];
        let y = b[i];
        assert((diff | (x ^ y)) == 0 <==> (diff == 0 && x == y)) by (bit_vector);
        diff = diff | (x ^ y);
        assert(a@.subrange(0, i + 1) =~= a@.subrange(0, i as int).push(x));
        assert(b@.subrange(0, i + 1) =~= b@.subrange(0, i as int).push(y));
        proof {
            let sa = a@.subrange(0, i as int);
            let sb = b@.subrange(0, i as int);
            if sa.push(x) == sb.push(y) {
                assert(sa =~= sa.push(x).drop_last());
                assert(sb =~= sb.push(y).drop_last());
                assert(sa.push(x).last() == x);
            }
        }
        i = i + 1;
    }
    assert(a@.subrange(0, a@.len() as int) =~= a@);
    assert(b@.subrange(0, b@.len() as int) =~= b@);
    diff == 0
}

/// The state of the authenticator: the stored record, if any, and the
/// passphrase of the open session, if any.
pub struct AuthView {
    pub record: Option<Seq<char>>,
    pub passphrase: Option<Seq<char>>,
}

/// Establishes and checks the master passphrase against its stored hash.
/// Without a record the vault is uninitialized; with one it is locked until
/// an attempt succeeds, and then holds the passphrase as the session secret.
pub struct Authenticator {
    record: Option<String>,
    passphrase: Option<String>,
}

/// The outcome of `set`: a short passphrase is refused and nothing changes;
/// any other becomes the record (its hash, which is returned for storing) and
/// the session secret.
pub open spec fn set_outcome(pre: AuthView, passphrase: Seq<char>, r: Result<Seq<char>, AuthError>, post: AuthView) -> bool {
    if too_short(passphrase) {
        r == Err::<Seq<char>, AuthError>(AuthError::PassphraseTooShort) && post == pre
    } else {
        r == Ok::<Seq<char>, AuthError>(master_hash(passphrase)) && post == (AuthView {
            record: Some(master_hash(passphrase)),
            passphrase: Some(passphrase),
        })
    }
}

/// The outcome of `attempt`: a short passphrase is refused; one whose hash is
/// the record opens the session; any other is refused in the same words
/// whether a record exists or not. The record never changes.
pub open spec fn attempt_outcome(pre: AuthView, passphrase: Seq<char>, r: Result<(), AuthError>, post: AuthView) -> bool {
    if too_short(passphrase) {
        r == Err::<(), AuthError>(AuthError::PassphraseTooShort) && post == pre
    } else if pre.record == Some(master_hash(passphrase)) {
        r == Ok::<(), AuthError>(()) && post == (AuthView { record: pre.record, passphrase: Some(passphrase) })
    } else {
        r == Err::<(), AuthError>(AuthError::InvalidPassphrase) && post == pre
    }
}

/// The characters of a result that carries a string.
pub open spec fn hash_result(r: Result<String, AuthError>) -> Result<Seq<char>, AuthError> {
    match r {
        Ok(s) => Ok(s@),
        Err(e) => Err(e),
    }
}

impl View for Authenticator {
    type V = AuthView;

    closed spec fn view(&self) -> AuthView {
        AuthView {
            record: match self.record {
                Some(s) => Some(s@),
                None => None,
            },
            passphrase: match self.passphrase {
                Some(s) => Some(s@),
                None => None,
            },
        }
    }
}

impl Authenticator {
    /// An authenticator over the stored record, if one was found; no session
    /// is open.
    pub fn new(record: Option<String>) -> (r: Self)
        ensures
            r@.record == (match record {
                Some(s) => Some(s@),
                None => None::<Seq<char>>,
            }),
            r@.passphrase is None,
    {
        Authenticator { record, passphrase: None }
    }

    /// Whether a record exists.
    pub fn is_initialized(&self) -> (r: bool)
        ensures
            r == self@.record is Some,
    {
        self.record.is_some()
    }

    /// Whether a session is open.
    pub fn is_unlocked(&self) -> (r: bool)
        ensures
            r == self@.passphrase is Some,
    {
        self.passphrase.is_some()
    }

    /// The passphrase of the open session.
    pub fn session_passphrase(&self) -> (r: Option<String>)
        ensures
            r matches Some(s) ==> self@.passphrase == Some(s@),
            r is None <==> self@.passphrase is None,
    {
        match &self.passphrase {
            Some(p) => Some(p.clone()),
            None => None,
        }
    }

    /// Establishes the first master passphrase. Returns the record to store.
    pub fn set(&mut self, passphrase: &str) -> (r: Result<String, AuthError>)
        requires
            old(self)@.record is None,
        ensures
            set_outcome(old(self)@, passphrase@, hash_result(r), final(self)@),
    {
        if passphrase.as_bytes().len() < MIN_PASSPHRASE_LEN {
            return Err(AuthError::PassphraseTooShort);
        }
        let hash = hash_master_key(passphrase);
        self.record = Some(hash.clone());
        self.passphrase = Some(passphrase.to_owned());
        Ok(hash)
    }

    /// Checks a passphrase against the record, and opens the session when
    /// its hash matches.
    pub fn attempt(&mut self, passphrase: &str) -> (r: Result<(), AuthError>)
        ensures
            attempt_outcome(old(self)@, passphrase@, r, final(self)@),
    {
        if passphrase.as_bytes().len() < MIN_PASSPHRASE_LEN {
            return Err(AuthError::PassphraseTooShort);
        }
        let hash = hash_master_key(passphrase);
        let matches = match &self.record {
            Some(stored) => constant_time_eq(hash.as_str().as_bytes(), stored.as_str().as_bytes()),
            None => false,
        };
        proof {
            if let Some(stored) = &self.record {
                if encode_utf8(hash@) == encode_utf8(stored@) {
                    assert(decode_utf8(encode_utf8(hash@)) == hash@);
                    assert(decode_utf8(encode_utf8(stored@)) == stored@);
                }
            }
        }
        if matches {
            self.passphrase = Some(passphrase.to_owned());
            Ok(())
        } else {
            Err(AuthError::InvalidPassphrase)
        }
    }

    /// Closes the session; the record stays.
    pub fn lock(&mut self)
        ensures
            final(self)@ == (AuthView { record: old(self)@.record, passphrase: None }),
    {
        self.passphrase = None;
    }
}

/// After `set(k)`, `attempt(k)` succeeds, and an attempt with any other
/// passphrase succeeds only where its hash equals that of `k`.
pub proof fn lemma_authentication_flow(
    a0: AuthView,
    k: Seq<char>,
    r1: Result<Seq<char>, AuthError>,
    a1: AuthView,
    guess: Seq<char>,
    r2: Result<(), AuthError>,
    a2: AuthView,
)
    requires
        !too_short(k),
        set_outcome(a0, k, r1, a1),
        attempt_outcome(a1, guess, r2, a2),
    ensures
        guess == k ==> r2 is Ok && a2.passphrase == Some(k),
        r2 is Ok ==> master_hash(guess) == master_hash(k),
        !too_short(guess) && master_hash(guess) != master_hash(k) ==> r2 == Err::<(), AuthError>(
            AuthError::InvalidPassphrase,
        ),
{
}

} // verus!
