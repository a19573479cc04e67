use voxnote_core::audio::accumulator::Accumulator;
use voxnote_core::audio::AudioChunk;

// A window of 1.0 s with 0.25 s of overlap at 16 kHz.
fn one_second_quarter_overlap() -> Accumulator<f32> {
    Accumulator::new_in_samples(16000, 4000, 16000)
}

#[test]
fn test_accumulator_produces_chunks() {
    let mut acc = one_second_quarter_overlap();

    let samples = vec![0.1f32; 16000];
    let chunks = acc.push(&samples);

    assert_eq!(chunks.len(), 1);
    assert_eq!(chunks[0].samples.len(), 16000);
    assert_eq!(chunks[0].timestamp_ms, 0);
}

#[test]
fn test_accumulator_overlap() {
    // 1.0 s windows with 0.5 s of overlap
    let mut acc: Accumulator<f32> = Accumulator::new_in_samples(16000, 8000, 16000);

    let samples = vec![0.1f32; 32000];
    let chunks = acc.push(&samples);

    assert!(chunks.len() >= 2);
}

#[test]
fn test_flush_remaining() {
    let mut acc = one_second_quarter_overlap();

    let samples = vec![0.1f32; 8000];
    let chunks = acc.push(&samples);
    assert!(chunks.is_empty());

    let flushed = acc.flush();
    assert!(flushed.is_some());
    assert_eq!(flushed.unwrap().samples.len(), 8000);
}

#[test]
fn accumulator_windows_overlap_and_are_timed() {
    let mut acc: Accumulator<u32> = Accumulator::new_in_samples(4, 1, 1000);
    let samples: Vec<u32> = (0..10).collect();
    let chunks = acc.push(&samples);
    // windows start at 0, 3, 6; a window from 9 is not complete
    assert_eq!(chunks.len(), 3);
    assert_eq!(chunks[0].samples, vec![0, 1, 2, 3]);
    assert_eq!(chunks[1].samples, vec![3, 4, 5, 6]);
    assert_eq!(chunks[2].samples, vec![6, 7, 8, 9]);
    assert_eq!(chunks[1].timestamp_ms, 3);
    assert_eq!(chunks[2].timestamp_ms, 6);
    assert!(chunks.iter().all(|c| c.sample_rate == 16000));
    // the overlap stays buffered
    assert_eq!(acc.buffered_samples(), 1);
    let rest = acc.flush().unwrap();
    assert_eq!(rest.samples, vec![9]);
    assert_eq!(rest.timestamp_ms, 9);
    assert!(acc.flush().is_none());
}

#[test]
fn accumulator_push_in_pieces_matches_push_at_once() {
    let data: Vec<u32> = (0..23).collect();
    let mut whole: Accumulator<u32> = Accumulator::new_in_samples(5, 2, 16000);
    let all_at_once = whole.push(&data);

    let mut parts: Accumulator<u32> = Accumulator::new_in_samples(5, 2, 16000);
    let mut in_pieces = parts.push(&data[..7]);
    in_pieces.extend(parts.push(&data[7..]));

    assert_eq!(all_at_once.len(), in_pieces.len());
    for (a, b) in all_at_once.iter().zip(in_pieces.iter()) {
        assert_eq!(a.samples, b.samples);
        assert_eq!(a.timestamp_ms, b.timestamp_ms);
    }
    assert_eq!(whole.buffered_samples(), parts.buffered_samples());
}

#[test]
fn accumulator_timestamps_round_down() {
    // 3 samples per window step at 44.1 kHz: 3 * 1000 / 44100 = 0.068 ms
    let mut acc: Accumulator<u8> = Accumulator::new_in_samples(3, 0, 44100);
    let chunks = acc.push(&vec![0u8; 300]);
    assert_eq!(chunks.len(), 100);
    assert_eq!(chunks[0].timestamp_ms, 0);
    // window 99 starts at sample 297: 297000 / 44100 = 6.73 -> 6
    assert_eq!(chunks[99].timestamp_ms, 6);
}

#[test]
fn accumulator_reset_restarts_time() {
    let mut acc: Accumulator<u8> = Accumulator::new_in_samples(2, 0, 1000);
    let _ = acc.push(&[1, 2, 3, 4, 5]);
    acc.reset();
    assert_eq!(acc.buffered_samples(), 0);
    let chunks = acc.push(&[7, 8]);
    assert_eq!(chunks[0].timestamp_ms, 0);
    assert_eq!(acc.sample_rate(), 1000);
}

#[test]
fn audio_chunk_new_is_16khz() {
    let c = AudioChunk::new(vec![1i16, 2, 3], 42);
    assert_eq!(c.sample_rate, 16000);
    assert_eq!(c.timestamp_ms, 42);
    assert_eq!(c.samples, vec![1, 2, 3]);
}

#[test]
fn accumulator_at_zero_rate() {
    // the stream position converts as the floating-point quotient does
    let mut acc: Accumulator<u8> = Accumulator::new_in_samples(2, 0, 0);
    let chunks = acc.push(&[1, 2, 3, 4]);
    assert_eq!(chunks.len(), 2);
    assert_eq!(chunks[0].timestamp_ms, 0);
    assert_eq!(chunks[1].timestamp_ms, i64::MAX);
    assert_eq!(((2u64 as f64) / (0u32 as f64) * 1000.0) as i64, i64::MAX);
}
