//! Application settings: defaults of the speech, storage and model
//! sections.

use vstd::prelude::*;

verus! {

/// Speech-to-text settings.
#[derive(Debug, Clone)]
pub struct SttConfig {
    /// The STT model id.
    pub model_id: Option<String>,
    /// The STT engine (`whisper`, `sensevoice` or `qwen-asr`).
    pub provider: Option<String>,
    /// The language; `None` detects it.
    pub language: Option<String>,
    /// Whether to use GPU acceleration.
    pub use_gpu: bool,
    /// Whether to translate into English.
    pub translate: bool,
}

/// Storage settings.
#[derive(Debug, Clone)]
pub struct StorageConfig {
    /// The data directory; `None` uses the default one.
    pub data_dir: Option<std::path::PathBuf>,
    /// Whether stored data is encrypted.
    pub encryption_enabled: bool,
}

/// Model settings.
#[derive(Debug, Clone)]
pub struct ModelConfig {
    /// The model directory; `None` uses the default one.
    pub models_dir: Option<std::path::PathBuf>,
    /// The size limit of the model cache, in MB.
    pub max_cache_mb: u64,
}

impl Default for SttConfig {
    fn default() -> (c: Self)
        ensures
            c.model_id is None,
            c.provider is None,
            c.language is None,
            c.use_gpu,
            !c.translate,
    {
        SttConfig { model_id: None, provider: None, language: None, use_gpu: true, translate: false }
    }
}

impl Default for StorageConfig {
    fn default() -> (c: Self)
        ensures
            c.data_dir is None,
            c.encryption_enabled,
    {
        StorageConfig { data_dir: None, encryption_enabled: true }
    }
}

impl Default for ModelConfig {
    fn default() -> (c: Self)
        ensures
            c.models_dir is None,
            c.max_cache_mb == 10240,
    {
        ModelConfig { models_dir: None, max_cache_mb: default_max_cache_mb() }
    }
}

/// The default capture sample rate, 48 kHz.
pub fn default_sample_rate() -> (r: u32)
    ensures
        r == 48000,
{
    48000
}

/// The default for switches that are on unless set.
pub fn default_true() -> (b: bool)
    ensures
        b,
{
    true
}

/// The default model cache limit, 10 GB (10240 MB).
pub fn default_max_cache_mb() -> (r: u64)
    ensures
        r == 10240,
{
    10240
}

} // verus!
