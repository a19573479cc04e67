//! Speaker diarization results and the names of new speakers.

use vstd::prelude::*;
use crate::text::{dec_digits, extend_str, push_decimal, string_of};

verus! {

broadcast use vstd::string::group_string_axioms;

/// A stretch of audio attributed to one speaker.
///
/// `confidence` holds the bit pattern of the diarizer's `f32` confidence
/// (`f32::to_bits`).
#[derive(Debug, Clone)]
pub struct SpeakerSegment {
    pub speaker_id: String,
    pub start_ms: i64,
    pub end_ms: i64,
    pub confidence: u32,
}

/// The name of the speaker cluster opened after `existing` others:
/// `speaker-N`, numbered from 1.
pub fn new_speaker_id(existing: usize) -> (id: String)
    requires
        existing < usize::MAX,
    ensures
        id@ == "speaker-"@ + dec_digits((existing + 1) as nat),
{
    let mut v: Vec<char> = Vec::new();
    extend_str(&mut v, "speaker-");
    push_decimal(&mut v, (existing + 1) as u64);
    string_of(&v)
}

} // verus!
