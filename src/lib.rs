//! A local secrets vault: master-passphrase authentication, key derivation,
//! authenticated encryption of stored secrets, an entry store and the
//! bookkeeping that lets entries be decrypted off the interactive thread.
pub mod cipher;
pub mod encoding;
pub mod kdf;
pub mod master_key;
pub mod password;
pub mod reveal_cache;
pub mod store;
pub mod title_map;
