//! Storage: row types and codecs of the note store, and the encryption
//! layer.

pub mod crypto;
pub mod sqlite;

pub use sqlite::{ProviderConfigRow, SummaryRow};
