//! Audio: the unit handed to speech engines, device descriptions and the
//! sliding-window accumulator.
//!
//! Capture, resampling and voice-activity detection work on
//! floating-point samples and run outside the library; the types here are
//! generic in the sample type.

pub mod accumulator;

use vstd::prelude::*;

verus! {

/// A window of samples for a speech engine (16 kHz mono).
pub struct AudioChunk<T> {
    /// The samples.
    pub samples: Vec<T>,
    /// The start time, in milliseconds since recording began.
    pub timestamp_ms: i64,
    /// The sample rate; always 16000.
    pub sample_rate: u32,
}

impl<T> AudioChunk<T> {
    pub fn new(samples: Vec<T>, timestamp_ms: i64) -> (c: Self)
        ensures
            c.samples@ == samples@,
            c.timestamp_ms == timestamp_ms,
            c.sample_rate == 16000,
    {
        AudioChunk { samples, timestamp_ms, sample_rate: 16000 }
    }
}

/// An audio input device.
#[derive(Debug, Clone)]
pub struct AudioDevice {
    pub name: String,
    pub is_default: bool,
    pub sample_rate: u32,
    pub channels: u16,
}

} // verus!
