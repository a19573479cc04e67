//! Model management: the model registry, the model cache on disk, model
//! loading and integrity checks.

pub mod disk;
pub mod downloader;
pub mod integrity;
pub mod loader;
pub mod paths;
pub mod registry;

pub use registry::{ModelEntry, ModelRegistry, ModelType};
