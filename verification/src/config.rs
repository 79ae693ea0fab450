//! What the host hands to the vault.

use vstd::prelude::*;

verus! {

/// The host's custody of the user key.
///
/// The vault never keeps the key: it asks each time it seals or opens, so
/// that a rotated or locked key is seen at once. `None` says that no key is
/// to be had right now.
pub trait KeyStore {
    fn get(&self) -> Option<String>;
}

/// The settings of a vault.
pub struct Config<K: KeyStore> {
    /// Where the host keeps the store, as `sqlite://` and a path.
    pub database_url: String,
    pub key_store: K,
}

} // verus!
