use voxnote_core::diarize::new_speaker_id;
use voxnote_core::error::LlmError;
use voxnote_core::llm::local::check_context;
use voxnote_core::model_manager::disk::lists_as_model;
use voxnote_core::models::Folder;
use voxnote_core::provider::fallback::FallbackLlmProvider;
use voxnote_core::provider::monitor::UsageLedger;
use voxnote_core::stt::{chunk_segment, frame_count, requested_language};

#[test]
fn usage_ledger_counts_per_provider() {
    let mut ledger = UsageLedger::new();
    assert!(ledger.can_record("openai", 10, 5));
    assert_eq!(ledger.record("openai", 10, 5), 0);
    assert_eq!(ledger.record("local", 1, 2), 1);
    assert_eq!(ledger.record("openai", 100, 50), 0);
    let stats = ledger.stats();
    assert_eq!(stats.len(), 2);
    assert_eq!(stats[0].provider, "openai");
    assert_eq!(
        (stats[0].total_tokens, stats[0].prompt_tokens, stats[0].completion_tokens, stats[0].request_count),
        (165, 110, 55, 2)
    );
    assert_eq!((stats[1].provider.as_str(), stats[1].total_tokens, stats[1].request_count), ("local", 3, 1));
    ledger.reset();
    assert!(ledger.stats().is_empty());
}

#[test]
fn usage_ledger_overflow_guard() {
    let mut ledger = UsageLedger::new();
    assert!(!ledger.can_record("x", u64::MAX, 1));
    ledger.record("x", u64::MAX - 1, 0);
    assert!(ledger.can_record("x", 1, 0));
    assert!(!ledger.can_record("x", 2, 0));
    assert!(ledger.can_record("y", 2, 0));
}

#[test]
fn chunk_segments() {
    let s = chunk_segment("n1", "  hello there \n", 1000, 4000).unwrap();
    assert_eq!(s.text, "hello there");
    assert_eq!((s.note_id.as_str(), s.start_ms, s.end_ms), ("n1", 1000, 4000));
    assert!(s.speaker_id.is_none());
    assert!(chunk_segment("n1", " \t ", 0, 1).is_none());
}

#[test]
fn requested_languages() {
    assert_eq!(requested_language(&Some("ko".to_string())), Some("ko".to_string()));
    assert_eq!(requested_language(&Some("auto".to_string())), None);
    assert_eq!(requested_language(&None), None);
}

#[test]
fn analysis_frames() {
    // one second at 16 kHz with 25 ms windows every 10 ms
    assert_eq!(frame_count(16000, 400, 160), 98);
    assert_eq!(frame_count(100, 400, 160), 1);
    assert_eq!(frame_count(400, 400, 160), 1);
}

#[test]
fn context_check() {
    assert!(check_context(10, 10).is_ok());
    match check_context(11, 10) {
        Err(LlmError::ContextOverflow { used, max }) => assert_eq!((used, max), (11, 10)),
        _ => panic!("expected an overflow"),
    }
}

#[test]
fn speaker_ids() {
    assert_eq!(new_speaker_id(0), "speaker-1");
    assert_eq!(new_speaker_id(9), "speaker-10");
}

#[test]
fn model_files() {
    assert!(lists_as_model("ggml-base.bin"));
    assert!(!lists_as_model("ggml-base.partial"));
    assert!(lists_as_model("partial.bin"));
}

#[test]
fn new_folder() {
    let f = Folder::new("Work", None);
    assert_eq!(f.name, "Work");
    assert!(f.parent_id.is_none());
    assert_eq!(f.id.len(), 36);
    let g = Folder::new("Sub", Some(f.id.clone()));
    assert_eq!(g.parent_id, Some(f.id));
}

#[test]
fn fallback_retry_count() {
    assert_eq!(FallbackLlmProvider::new(1, 2).max_retries(), 3);
    assert_eq!(FallbackLlmProvider::new(1, 2).with_max_retries(5).max_retries(), 5);
}
