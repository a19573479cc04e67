//! Error types of the library.

use vstd::prelude::*;
use vstd::string::StringExecFns;
use crate::text::{dec_digits, push_decimal, string_of};

verus! {

/// `std::io::Error`, carried by `ModelError::Io`.
#[verifier::external_type_specification]
#[verifier::external_body]
pub struct ExIoError(std::io::Error);

/// `rusqlite::Error`, carried by `StorageError::Sqlite`.
#[verifier::external_type_specification]
#[verifier::external_body]
pub struct ExSqliteError(rusqlite::Error);

/// Any error of the library.
#[derive(Debug)]
pub enum VoxNoteError {
    Audio(AudioError),
    Stt(SttError),
    Llm(LlmError),
    Storage(StorageError),
    Model(ModelError),
    Crypto(CryptoError),
    Config(String),
}

/// Errors of the audio pipeline.
#[derive(Debug)]
pub enum AudioError {
    NoDevice,
    DeviceNotAvailable(String),
    Stream(String),
    Resample(String),
    Vad(String),
    BufferOverflow(usize),
}

/// Errors of speech-to-text engines.
#[derive(Debug)]
pub enum SttError {
    ModelNotLoaded,
    Inference(String),
    UnsupportedLanguage(String),
    Provider(String),
}

/// Errors of language-model engines.
#[derive(Debug)]
pub enum LlmError {
    ModelNotLoaded,
    Inference(String),
    ContextOverflow { used: usize, max: usize },
    Provider(String),
}

/// Errors of the note store.
#[derive(Debug)]
pub enum StorageError {
    Sqlite(rusqlite::Error),
    Migration(String),
    NotFound(String),
    Serialization(String),
}

/// Errors of model management.
#[derive(Debug)]
pub enum ModelError {
    NotFound(String),
    Download(String),
    IntegrityCheck { expected: String, actual: String },
    InsufficientDisk { need_mb: u64, available_mb: u64 },
    Registry(String),
    Io(std::io::Error),
}

/// Errors of key derivation and encryption.
#[derive(Debug)]
pub enum CryptoError {
    KeyDerivation(String),
    Encryption(String),
    Decryption(String),
    InvalidKey,
}

/// The message of a language-model error.
pub open spec fn llm_error_text(e: LlmError) -> Seq<char> {
    match e {
        LlmError::ModelNotLoaded => "Model not loaded"@,
        LlmError::Inference(m) => "Inference failed: "@ + m@,
        LlmError::ContextOverflow { used, max } => "Context overflow: "@ + dec_digits(used as nat)
            + " tokens exceeds "@ + dec_digits(max as nat) + " limit"@,
        LlmError::Provider(m) => "Provider error: "@ + m@,
    }
}

impl LlmError {
    /// The error's message.
    pub fn message(&self) -> (m: String)
        ensures
            m@ == llm_error_text(*self),
    {
        match self {
            LlmError::ModelNotLoaded => String::from_str("Model not loaded"),
            LlmError::Inference(m) => {
                let mut r = String::from_str("Inference failed: ");
                r.append(m.as_str());
                r
            },
            LlmError::ContextOverflow { used, max } => {
                let mut v: Vec<char> = Vec::new();
                crate::text::extend_str(&mut v, "Context overflow: ");
                push_decimal(&mut v, *used as u64);
                crate::text::extend_str(&mut v, " tokens exceeds ");
                push_decimal(&mut v, *max as u64);
                crate::text::extend_str(&mut v, " limit");
                string_of(&v)
            },
            LlmError::Provider(m) => {
                let mut r = String::from_str("Provider error: ");
                r.append(m.as_str());
                r
            },
        }
    }
}

} // verus!
