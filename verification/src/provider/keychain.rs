//! API-key storage in the operating system's key store.
//!
//! The Windows and Linux back ends are stubs that keep nothing; this
//! library does not run the macOS `security` tool.  Keys are passed as
//! plain text; callers hold them in `secrecy::SecretString`.

use vstd::prelude::*;
use vstd::string::StringExecFns;
use crate::error::CryptoError;

verus! {

broadcast use vstd::string::group_string_axioms;

/// Stores API keys under entries named `<service>-<provider>`.
pub struct KeychainStore {
    service_name: String,
}

impl KeychainStore {
    /// The name of the service the entries belong to.
    pub closed spec fn service(&self) -> Seq<char> {
        self.service_name@
    }

    pub fn new(service_name: &str) -> (k: Self)
        ensures
            k.service() == service_name@,
    {
        KeychainStore { service_name: String::from_str(service_name) }
    }

    /// The name of the service the entries belong to.
    pub fn service_name(&self) -> (s: &str)
        ensures
            s@ == self.service(),
    {
        self.service_name.as_str()
    }

    /// The key-store entry for a provider: `<service>-<provider>`.
    pub fn entry_name(&self, provider: &str) -> (r: String)
        ensures
            r@ == self.service() + "-"@ + provider@,
    {
        let mut r = self.service_name.clone();
        r.append("-");
        r.append(provider);
        r
    }

    /// Stores the API key of a provider.
    pub fn store_key(&self, provider: &str, key: &str) -> (r: Result<(), CryptoError>)
        ensures
            r is Ok,
    {
        let entry = self.entry_name(provider);
        self.store_linux(entry.as_str(), key)
    }

    /// The API key of a provider, when the key store holds one.
    pub fn get_key(&self, provider: &str) -> (r: Result<Option<String>, CryptoError>)
        ensures
            r matches Ok(None),
    {
        let entry = self.entry_name(provider);
        self.get_linux(entry.as_str())
    }

    /// Deletes the API key of a provider.
    pub fn delete_key(&self, provider: &str) -> (r: Result<(), CryptoError>)
        ensures
            r is Ok,
    {
        let _entry = self.entry_name(provider);
        Ok(())
    }

    /// The Windows Credential Manager back end: a stub that keeps nothing.
    pub fn store_windows(&self, _entry_name: &str, _value: &str) -> (r: Result<(), CryptoError>)
        ensures
            r is Ok,
    {
        Ok(())
    }

    /// The Windows Credential Manager back end: a stub that finds nothing.
    pub fn get_windows(&self, _entry_name: &str) -> (r: Result<Option<String>, CryptoError>)
        ensures
            r matches Ok(None),
    {
        Ok(None)
    }

    /// The Secret Service back end: a stub that keeps nothing.
    pub fn store_linux(&self, _entry_name: &str, _value: &str) -> (r: Result<(), CryptoError>)
        ensures
            r is Ok,
    {
        Ok(())
    }

    /// The Secret Service back end: a stub that finds nothing.
    pub fn get_linux(&self, _entry_name: &str) -> (r: Result<Option<String>, CryptoError>)
        ensures
            r matches Ok(None),
    {
        Ok(None)
    }
}

} // verus!
