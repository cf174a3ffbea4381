use ferris_vault::cipher::{decrypt, encrypt};
use ferris_vault::master_key::{hash_master_key, AuthError, Authenticator};
use ferris_vault::password::{charset, generate_password};
use ferris_vault::reveal_cache::{RevealCache, RevealRequest};
use ferris_vault::store::VaultStore;

#[test]
fn set_then_attempt_succeeds() {
    let mut auth = Authenticator::new(None);
    assert!(!auth.is_initialized());
    let hash = auth.set("masterpass123").unwrap();
    assert_eq!(hash, hash_master_key("masterpass123"));
    assert!(auth.is_unlocked());
    assert_eq!(auth.session_passphrase(), Some("masterpass123".to_string()));
    auth.lock();
    assert!(!auth.is_unlocked());
    assert_eq!(auth.attempt("masterpass123"), Ok(()));
    assert!(auth.is_unlocked());
}

#[test]
fn wrong_passphrase_is_invalid() {
    let mut auth = Authenticator::new(None);
    auth.set("masterpass123").unwrap();
    auth.lock();
    assert_eq!(auth.attempt("masterpass124"), Err(AuthError::InvalidPassphrase));
    assert!(!auth.is_unlocked());
}

#[test]
fn short_passphrase_is_refused() {
    let mut auth = Authenticator::new(None);
    assert_eq!(auth.set("abc"), Err(AuthError::PassphraseTooShort));
    assert!(!auth.is_initialized());
    assert_eq!(auth.attempt("abc"), Err(AuthError::PassphraseTooShort));
    assert!(auth.set("abcd").is_ok());
}

#[test]
fn attempt_without_record_is_invalid() {
    let mut auth = Authenticator::new(None);
    assert_eq!(auth.attempt("masterpass123"), Err(AuthError::InvalidPassphrase));
}

#[test]
fn stored_record_unlocks() {
    let mut auth = Authenticator::new(Some(hash_master_key("hunter22")));
    assert!(auth.is_initialized());
    assert!(!auth.is_unlocked());
    assert_eq!(auth.attempt("hunter2"), Err(AuthError::InvalidPassphrase));
    assert_eq!(auth.attempt("hunter22"), Ok(()));
    assert_eq!(auth.session_passphrase(), Some("hunter22".to_string()));
}

#[test]
fn store_integrity() {
    let mut store = VaultStore::new();
    store.put("github".to_string(), encrypt("S3cr3t!", "masterpass123"));
    let blob = store.get("github").unwrap();
    assert_eq!(decrypt(&blob, "masterpass123"), Some("S3cr3t!".to_string()));
}

#[test]
fn store_last_write_wins_and_delete() {
    let mut store = VaultStore::new();
    store.put("a".to_string(), "one".to_string());
    store.put("b".to_string(), "two".to_string());
    store.put("a".to_string(), "three".to_string());
    assert_eq!(store.get("a"), Some("three".to_string()));
    let mut entries = store.entries();
    entries.sort();
    assert_eq!(
        entries,
        vec![("a".to_string(), "three".to_string()), ("b".to_string(), "two".to_string())]
    );
    assert!(store.delete("a"));
    assert!(!store.delete("a"));
    assert_eq!(store.get("a"), None);
    assert_eq!(store.entries().len(), 1);
}

#[test]
fn pending_dedup() {
    let mut cache = RevealCache::new();
    assert_eq!(cache.request_reveal("github"), RevealRequest::Dispatch);
    assert_eq!(cache.request_reveal("github"), RevealRequest::InProgress);
    cache.complete_reveal("github".to_string(), Some("S3cr3t!".to_string()));
    assert_eq!(cache.request_reveal("github"), RevealRequest::Cached("S3cr3t!".to_string()));
    assert_eq!(cache.request_reveal("github"), RevealRequest::Cached("S3cr3t!".to_string()));
}

#[test]
fn failed_reveal_is_reported() {
    let mut cache = RevealCache::new();
    assert_eq!(cache.request_reveal("x"), RevealRequest::Dispatch);
    cache.complete_reveal("x".to_string(), None);
    assert_eq!(cache.request_reveal("x"), RevealRequest::Failed);
    cache.forget("x");
    assert_eq!(cache.request_reveal("x"), RevealRequest::Dispatch);
}

#[test]
fn result_after_clear_is_dropped() {
    let mut cache = RevealCache::new();
    assert_eq!(cache.request_reveal("x"), RevealRequest::Dispatch);
    cache.clear();
    cache.complete_reveal("x".to_string(), Some("late".to_string()));
    assert_eq!(cache.request_reveal("x"), RevealRequest::Dispatch);
}

#[test]
fn charset_groups() {
    assert_eq!(charset(false, false, false).len(), 26);
    assert_eq!(charset(true, false, false).len(), 52);
    assert_eq!(charset(true, true, false).len(), 62);
    assert_eq!(charset(true, true, true).len(), 87);
    let set: String = charset(false, true, true).into_iter().collect();
    assert_eq!(set, "abcdefghijklmnopqrstuvwxyz0123456789!@#$%^&*()-_=+[]{};:,.<>?");
}

#[test]
fn generated_password_uses_charset() {
    let pw = generate_password(64, false, true, false);
    assert_eq!(pw.chars().count(), 64);
    assert!(pw.chars().all(|c| c.is_ascii_lowercase() || c.is_ascii_digit()));
    assert_eq!(generate_password(0, true, true, true), "");
}
