//! Provider management: API-key storage, fallback between language-model
//! providers, the registry of named providers and usage accounting.

pub mod keychain;
pub mod registry;
pub mod fallback;
pub mod monitor;
