//! Core library of the VoxNote meeting-notes application.

pub mod audio;
pub mod config;
pub mod diarize;
pub mod export;
pub mod digest;
pub mod error;
pub mod ids;
pub mod models;
pub mod text;
pub mod llm;
pub mod model_manager;
pub mod pipeline;
pub mod post_processor;
pub mod rag;
pub mod provider;
pub mod storage;
pub mod stt;
pub mod sync;
pub mod tts;
