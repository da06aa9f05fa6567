use vstd::prelude::*;
use crate::text::{has_sub, has_prefix, contains_text, starts_with_text};

verus! {

/// Service name of the credential entry.
pub const SERVICE_NAME: &'static str = "com.baystate.scraper";

/// Account name of the credential entry.
pub const API_KEY_ACCOUNT: &'static str = "api_key";

/// Every API key begins with this.
pub const API_KEY_PREFIX: &'static str = "bsr_";

#[verifier::external_type_specification]
#[verifier::external_body]
pub struct ExEntry(keyring::Entry);

#[verifier::external_type_specification]
#[verifier::external_body]
pub struct ExKeyringError(keyring::Error);

/// Relies on keyring::Entry::new: builds the entry for a service and account,
/// or fails; which depends on the platform's credential store.
pub assume_specification[ keyring::Entry::new ](service: &str, user: &str) -> keyring::Result<
    keyring::Entry,
>;

/// Relies on keyring::Entry::set_password: writes the secret, or fails.
pub assume_specification[ keyring::Entry::set_password ](
    entry: &keyring::Entry,
    password: &str,
) -> keyring::Result<()>;

/// Relies on keyring::Entry::get_password: reads the secret, or fails.
pub assume_specification[ keyring::Entry::get_password ](entry: &keyring::Entry) -> keyring::Result<
    String,
>;

/// Relies on keyring::Entry::delete_credential: removes the entry, or fails.
pub assume_specification[ keyring::Entry::delete_credential ](
    entry: &keyring::Entry,
) -> keyring::Result<()>;

/// Failures of the credential store.
#[derive(Debug)]
pub enum KeychainError {
    /// The store could not be reached or refused access.
    Access(String),
    /// No API key is stored.
    NotFound,
    /// The key could not be written or removed.
    Store(String),
    /// The key does not begin with the required prefix.
    InvalidKey,
}

/// Words in a backend error that mean the entry does not exist.
pub open spec fn is_not_found_text(t: Seq<char>) -> bool {
    has_sub(t, "No matching entry"@) || has_sub(t, "not found"@) || has_sub(t, "NoEntry"@)
}

/// The text a failure is shown as.
pub open spec fn message_of(e: KeychainError) -> Seq<char> {
    match e {
        KeychainError::Access(t) => "Keychain access error: "@ + t@,
        KeychainError::NotFound => "Key not found"@,
        KeychainError::Store(t) => "Failed to store key: "@ + t@,
        KeychainError::InvalidKey => "API key must start with 'bsr_'"@,
    }
}

impl KeychainError {
    /// The failure as a line of text for the user.
    pub fn message(&self) -> (r: String)
        ensures
            r@ == message_of(*self),
    {
        match self {
            KeychainError::Access(t) => {
                let mut m = "Keychain access error: ".to_string();
                m.append(t.as_str());
                m
            },
            KeychainError::NotFound => "Key not found".to_string(),
            KeychainError::Store(t) => {
                let mut m = "Failed to store key: ".to_string();
                m.append(t.as_str());
                m
            },
            KeychainError::InvalidKey => "API key must start with 'bsr_'".to_string(),
        }
    }
}

/// Sorts a backend's lookup failure by its text: not-found markers give
/// `NotFound`, anything else is an access failure that keeps the text.
pub fn classify_lookup_error(text: String) -> (r: KeychainError)
    ensures
        is_not_found_text(text@) ==> r == KeychainError::NotFound,
        !is_not_found_text(text@) ==> r == KeychainError::Access(text),
{
    if contains_text(text.as_str(), "No matching entry") || contains_text(
        text.as_str(),
        "not found",
    ) || contains_text(text.as_str(), "NoEntry") {
        KeychainError::NotFound
    } else {
        KeychainError::Access(text)
    }
}

/// Accepts exactly the keys that begin with the required prefix.
pub fn validate_api_key(key: &str) -> (r: Result<(), KeychainError>)
    ensures
        r is Ok <==> has_prefix(key@, API_KEY_PREFIX@),
        r is Err ==> r == Err::<(), KeychainError>(KeychainError::InvalidKey),
{
    if starts_with_text(key, API_KEY_PREFIX) {
        Ok(())
    } else {
        Err(KeychainError::InvalidKey)
    }
}

fn open_entry() -> (r: Result<keyring::Entry, KeychainError>)
    ensures
        r matches Err(e) ==> e is Access,
{
    match keyring::Entry::new(SERVICE_NAME, API_KEY_ACCOUNT) {
        Ok(entry) => Ok(entry),
        Err(e) => Err(KeychainError::Access(e.to_string())),
    }
}

/// Stores `key` as the API key, replacing any earlier one. A key without the
/// required prefix is refused before the store is touched.
pub fn store_api_key(key: &str) -> (r: Result<(), KeychainError>)
    ensures
        !has_prefix(key@, API_KEY_PREFIX@) <==> r == Err::<(), KeychainError>(
            KeychainError::InvalidKey,
        ),
        r matches Err(e) ==> (e is InvalidKey || e is Access || e is Store),
{
    let checked = validate_api_key(key);
    if checked.is_err() {
        return checked;
    }
    let entry = match open_entry() {
        Ok(entry) => entry,
        Err(e) => return Err(e),
    };
    match entry.set_password(key) {
        Ok(()) => Ok(()),
        Err(e) => Err(KeychainError::Store(e.to_string())),
    }
}

/// The stored API key; `NotFound` when the store has none.
pub fn get_api_key() -> (r: Result<String, KeychainError>)
    ensures
        r matches Err(e) ==> (e is NotFound || e is Access),
{
    let entry = match open_entry() {
        Ok(entry) => entry,
        Err(e) => return Err(e),
    };
    match entry.get_password() {
        Ok(key) => Ok(key),
        Err(e) => Err(classify_lookup_error(e.to_string())),
    }
}

/// Removes the stored API key.
pub fn delete_api_key() -> (r: Result<(), KeychainError>)
    ensures
        r matches Err(e) ==> (e is Access || e is Store),
{
    let entry = match open_entry() {
        Ok(entry) => entry,
        Err(e) => return Err(e),
    };
    match entry.delete_credential() {
        Ok(()) => Ok(()),
        Err(e) => Err(KeychainError::Store(e.to_string())),
    }
}

/// Whether an API key can be read from the store right now.
pub fn has_api_key() -> (r: bool) {
    get_api_key().is_ok()
}

} // verus!
