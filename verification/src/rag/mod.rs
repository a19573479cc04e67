//! Retrieval ("Ask VoxNote"): chunking, embedding and search.
//!
//! Similarity scores are floating point; scoring, ranking and the answer
//! pipeline run outside the library.

pub mod chunker;
pub mod embedder;
pub mod pipeline;
pub mod search;
