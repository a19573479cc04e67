//! Recording sessions.

use vstd::prelude::*;

verus! {

/// The state of a recording session.
#[derive(Debug, Clone, Copy, PartialEq, Eq, Structural)]
pub enum RecordingState {
    Idle,
    Recording,
    Paused,
    Stopped,
}

/// A recording session.
#[derive(Debug, Clone)]
pub struct Recording {
    pub session_id: String,
    pub note_id: String,
    pub state: RecordingState,
    pub elapsed_ms: u64,
    pub sample_rate: u32,
}

} // verus!
