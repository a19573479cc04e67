//! Transcript segments.

use vstd::prelude::*;
use vstd::string::StringExecFns;
use crate::ids::{new_uuid_string, uuid_v4_text};

verus! {

broadcast use vstd::string::group_string_axioms;

/// One transcribed stretch of speech.
///
/// `confidence` holds the bit pattern of the engine's `f32` confidence
/// (`f32::to_bits`), when the engine reports one.
#[derive(Debug, Clone)]
pub struct Segment {
    pub id: String,
    pub note_id: String,
    pub text: String,
    pub start_ms: i64,
    pub end_ms: i64,
    pub speaker_id: Option<String>,
    pub confidence: Option<u32>,
}

impl Segment {
    /// A new segment with a fresh id, no speaker and no confidence.
    pub fn new(note_id: &str, text: &str, start_ms: i64, end_ms: i64) -> (s: Self)
        ensures
            uuid_v4_text(s.id@),
            s.note_id@ == note_id@,
            s.text@ == text@,
            s.start_ms == start_ms,
            s.end_ms == end_ms,
            s.speaker_id is None,
            s.confidence is None,
    {
        Segment {
            id: new_uuid_string(),
            note_id: String::from_str(note_id),
            text: String::from_str(text),
            start_ms,
            end_ms,
            speaker_id: None,
            confidence: None,
        }
    }

    /// The length of the segment in milliseconds.
    pub fn duration_ms(&self) -> (d: i64)
        requires
            i64::MIN <= self.end_ms - self.start_ms <= i64::MAX,
        ensures
            d == self.end_ms - self.start_ms,
    {
        self.end_ms - self.start_ms
    }
}

} // verus!
