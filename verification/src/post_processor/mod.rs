//! Transcript post-processing: vocabulary correction, speaker tagging and
//! the typo-correction request.

pub mod aho_corasick;
pub mod speaker_tagger;
pub mod typo_corrector;
