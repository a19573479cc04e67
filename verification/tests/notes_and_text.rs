use voxnote_core::config::{default_max_cache_mb, default_sample_rate, default_true, ModelConfig, StorageConfig, SttConfig};
use voxnote_core::error::LlmError;
use voxnote_core::export::docx::export_docx;
use voxnote_core::export::markdown::{export_markdown, format_timestamp, render_markdown};
use voxnote_core::export::pdf::export_pdf;
use voxnote_core::export::{utf8_bytes, ExportData};
use voxnote_core::models::note::{Note, NoteStatus, Timestamp};
use voxnote_core::models::segment::Segment;
use voxnote_core::pipeline::prompt_context;
use voxnote_core::provider::fallback::{both_failed, FallbackLlmProvider, FallbackStep};
use voxnote_core::provider::keychain::KeychainStore;
use voxnote_core::provider::registry::ProviderRegistry;
use voxnote_core::rag::chunker::TextChunker;
use voxnote_core::rag::embedder::{simple_hash, SimpleEmbedder};
use voxnote_core::rag::pipeline::{answer_prompt, answer_request, answer_with_sources, build_context, distinct_sources, no_information, NO_INFORMATION};
use voxnote_core::storage::sqlite::{status_to_str, str_to_status, ProviderConfigRow, SummaryRow};
use voxnote_core::stt::cloud::pcm16_to_wav;
use voxnote_core::stt::qwen_asr::vocab_from_pairs;
use voxnote_core::stt::sensevoice::{language_id, parse_vocabulary, vocabulary_ids_fit};
use voxnote_core::stt::{lookup_token, Language};
use voxnote_core::tts::cloud::OpenAiTtsProvider;
use voxnote_core::tts::onnx::LocalTtsProvider;

fn note_at(secs: i64) -> Note {
    let mut n = Note::new("Weekly sync");
    n.created_at = Timestamp { secs, nanos: 0 };
    n.updated_at = n.created_at;
    n
}

fn seg(text: &str, start: i64, speaker: Option<&str>) -> Segment {
    let mut s = Segment::new("n1", text, start, start + 1000);
    s.speaker_id = speaker.map(|x| x.to_string());
    s
}

#[test]
fn test_chunking() {
    let text = (0..100).map(|i| format!("word{}", i)).collect::<Vec<_>>().join(" ");
    // 30 words with a 0.25 overlap ratio: 7 words of overlap
    let chunker = TextChunker::with_overlap(30, 7);
    let chunks = chunker.chunk(&text);

    assert!(chunks.len() > 1);
    assert!(chunks[0].text.contains("word0"));
    if chunks.len() > 1 {
        let last_words_0: Vec<&str> = chunks[0].text.split_whitespace().rev().take(5).collect();
        let first_words_1: Vec<&str> = chunks[1].text.split_whitespace().take(10).collect();
        assert!(last_words_0.iter().any(|w| first_words_1.contains(w)));
    }
}

#[test]
fn chunking_details() {
    let text = "a b c d e f g";
    let chunks = TextChunker::with_overlap(3, 1).chunk(text);
    let texts: Vec<&str> = chunks.iter().map(|c| c.text.as_str()).collect();
    assert_eq!(texts, vec!["a b c", "c d e", "e f g"]);
    assert_eq!(chunks.iter().map(|c| c.index).collect::<Vec<_>>(), vec![0, 1, 2]);
    assert_eq!((chunks[0].start_char, chunks[0].end_char), (0, 6));
    assert_eq!((chunks[1].start_char, chunks[1].end_char), (4, 10));
    assert_eq!((chunks[2].start_char, chunks[2].end_char), (8, 13));
    assert!(TextChunker::default_rag().chunk("  \n ").is_empty());
    // byte offsets count UTF-8 bytes
    let ko = TextChunker::with_overlap(1, 0).chunk("회의 요약");
    assert_eq!(ko.len(), 2);
    assert_eq!((ko[1].start_char, ko[1].end_char), (7, 13));
}

#[test]
fn embedder_buckets() {
    let e = SimpleEmbedder::new(8);
    assert_eq!(e.dimension(), 8);
    assert_eq!(e.name(), "simple-tfidf");
    // "a" = 97; "ab" = 97 * 31 + 98 = 3105
    assert_eq!(simple_hash("a"), 97);
    assert_eq!(simple_hash("ab"), 3105);
    assert_eq!(e.buckets("a ab a"), vec![97 % 8, 3105 % 8, 97 % 8]);
    assert!(e.buckets("").is_empty());
    // with no words, no bucket is computed, so a zero dimension is fine
    let zero = SimpleEmbedder::new(0);
    assert!(zero.buckets("").is_empty());
    assert!(zero.buckets(" \t\n").is_empty());
}

#[test]
fn rag_context_and_prompt() {
    let hits = vec![
        ("note-1".to_string(), "Budget approved.".to_string()),
        ("note-2".to_string(), "Launch in May.".to_string()),
    ];
    let ctx = build_context(&hits);
    assert_eq!(ctx, "[Source: note-1]\nBudget approved.\n\n---\n\n[Source: note-2]\nLaunch in May.");
    let prompt = answer_request(&hits, "When is the launch?").unwrap();
    assert_eq!(prompt, answer_prompt(&ctx, "When is the launch?"));
    assert!(prompt.starts_with("Based on the following meeting notes, answer the question."));
    assert!(prompt.ends_with("## Question\nWhen is the launch?\n\n## Answer"));
    assert!(answer_request(&Vec::new(), "anything").is_none());
    assert_eq!(build_context(&Vec::new()), "");
}

#[test]
fn rag_answers() {
    let none = no_information();
    assert_eq!(none.answer, NO_INFORMATION);
    assert!(none.sources.is_empty());
    let ids = vec!["b".to_string(), "a".to_string(), "b".to_string(), "c".to_string(), "a".to_string()];
    assert_eq!(distinct_sources(&ids), vec!["b", "a", "c"]);
    let ans = answer_with_sources("42".to_string(), &ids);
    assert_eq!(ans.answer, "42");
    assert_eq!(ans.sources.len(), 3);
}

#[test]
fn prompt_context_takes_last_three() {
    let texts: Vec<String> = ["one", "two", "three", "four"].iter().map(|s| s.to_string()).collect();
    assert_eq!(prompt_context(&texts), "two three four");
    assert_eq!(prompt_context(&texts[..1].to_vec()), "one");
    assert_eq!(prompt_context(&Vec::new()), "");
}

#[test]
fn timestamps_format() {
    assert_eq!(format_timestamp(0), "00:00");
    assert_eq!(format_timestamp(65_432), "01:05");
    assert_eq!(format_timestamp(3_600_000), "60:00");
    assert_eq!(format_timestamp(-1_500), "00:-1");
}

#[test]
fn negative_timestamp_matches_format() {
    let ms: i64 = -61_500;
    let total = ms / 1000;
    assert_eq!(format_timestamp(ms), format!("{:02}:{:02}", total / 60, total % 60));
}

#[test]
fn markdown_document() {
    let mut note = note_at(1_700_000_000);
    note.language = Some("ko".to_string());
    note.duration_ms = Some(125_000);
    let data = ExportData {
        note,
        segments: vec![seg("Hello", 0, Some("A")), seg("Again", 1000, Some("A")), seg("Hi", 61_000, None)],
        summary: Some("Short.".to_string()),
    };
    let md = render_markdown(&data, "2023-11-14 22:13");
    let expected = "# Weekly sync\n\n**Date:** 2023-11-14 22:13  \n**Language:** ko  \n**Duration:** 2m 5s  \n\n---\n\n## Summary\n\nShort.\n\n---\n\n## Transcript\n\n\n**A** (00:00)\n\nHello\n\nAgain\n\n\n*01:01*\n\nHi\n\n";
    assert_eq!(md, expected);
    assert_eq!(export_markdown(&data), expected);
    assert_eq!(export_pdf(&data).unwrap(), expected.as_bytes());
    assert_eq!(export_docx(&data).unwrap(), expected.as_bytes());
}

#[test]
fn markdown_minimal() {
    let data = ExportData { note: note_at(0), segments: vec![], summary: None };
    assert_eq!(export_markdown(&data), "# Weekly sync\n\n**Date:** 1970-01-01 00:00  \n\n---\n\n## Transcript\n\n");
    assert_eq!(utf8_bytes("é".to_string()), vec![0xc3, 0xa9]);
}

#[test]
fn config_defaults() {
    let stt = SttConfig::default();
    assert!(stt.model_id.is_none() && stt.provider.is_none() && stt.language.is_none());
    assert!(stt.use_gpu);
    assert!(!stt.translate);
    let st = StorageConfig::default();
    assert!(st.data_dir.is_none() && st.encryption_enabled);
    let m = ModelConfig::default();
    assert!(m.models_dir.is_none());
    assert_eq!(m.max_cache_mb, 10240);
    assert_eq!(default_sample_rate(), 48000);
    assert!(default_true());
    assert_eq!(default_max_cache_mb(), 10240);
}

#[test]
fn status_text_roundtrip() {
    for s in [NoteStatus::Recording, NoteStatus::Transcribing, NoteStatus::Summarizing, NoteStatus::Done, NoteStatus::Error] {
        assert_eq!(str_to_status(status_to_str(&s)), s);
    }
    assert_eq!(status_to_str(&NoteStatus::Done), "done");
    assert_eq!(str_to_status("unknown"), NoteStatus::Error);
    assert_eq!(str_to_status("Done"), NoteStatus::Error);
}

#[test]
fn new_rows_and_notes() {
    let n = Note::new("Kickoff");
    assert_eq!(n.title, "Kickoff");
    assert_eq!(n.status, NoteStatus::Recording);
    assert_eq!(n.id.len(), 36);
    assert_eq!(n.created_at, n.updated_at);
    assert_ne!(Note::new("x").id, Note::new("x").id);
    let r = ProviderConfigRow::new("llm", "openai");
    assert_eq!((r.engine_type.as_str(), r.provider.as_str(), r.is_active), ("llm", "openai", false));
    let s = SummaryRow::new("note-9", "text");
    assert_eq!((s.note_id.as_str(), s.content.as_str()), ("note-9", "text"));
    let g = Segment::new("n", "t", 100, 350);
    assert_eq!(g.duration_ms(), 250);
    assert!(g.speaker_id.is_none() && g.confidence.is_none());
}

#[test]
fn wav_encoding() {
    let wav = pcm16_to_wav(&[0, 1, -1, i16::MIN], 16000);
    assert_eq!(wav.len(), 44 + 8);
    assert_eq!(&wav[0..4], b"RIFF");
    assert_eq!(&wav[4..8], &(36u32 + 8).to_le_bytes());
    assert_eq!(&wav[8..16], b"WAVEfmt ");
    assert_eq!(&wav[24..28], &16000u32.to_le_bytes());
    assert_eq!(&wav[28..32], &32000u32.to_le_bytes());
    assert_eq!(&wav[36..40], b"data");
    assert_eq!(&wav[40..44], &8u32.to_le_bytes());
    assert_eq!(&wav[44..], &[0, 0, 1, 0, 0xff, 0xff, 0x00, 0x80]);
}

#[test]
fn stt_helpers() {
    assert_eq!(language_id(Some("zh")), 3);
    assert_eq!(language_id(Some("en")), 4);
    assert_eq!(language_id(Some("ja")), 11);
    assert_eq!(language_id(Some("ko")), 7);
    assert_eq!(language_id(Some("yue")), 13);
    assert_eq!(language_id(Some("fr")), 0);
    assert_eq!(language_id(None), 0);
    let vocab = vec!["a".to_string(), "b".to_string()];
    assert_eq!(lookup_token(&vocab, 1), Some(&"b".to_string()));
    assert_eq!(lookup_token(&vocab, 2), None);
    assert_eq!(lookup_token(&vocab, -1), None);
    let auto = Language::auto();
    assert_eq!((auto.code.as_str(), auto.name.as_str()), ("auto", "Auto-detect"));
}

#[test]
fn sensevoice_vocabulary_file() {
    let content = "<blk> 0\n▁hello 2\nbad line\nx notanumber\ntwo words 4\n";
    assert!(vocabulary_ids_fit(content));
    let v = parse_vocabulary(content).unwrap();
    assert_eq!(v, vec!["<blk>", "", "▁hello", "", "two words"]);
    assert!(parse_vocabulary("only\n\n").is_err());
    assert!(!vocabulary_ids_fit(&format!("t {}\n", usize::MAX)));
}

#[test]
fn qwen_vocabulary_table() {
    let pairs = vec![("b".to_string(), 1usize), ("d".to_string(), 3), ("a".to_string(), 0)];
    assert_eq!(vocab_from_pairs(&pairs), vec!["a", "b", "", "d"]);
    assert_eq!(vocab_from_pairs(&Vec::new()), vec![""]);
}

#[test]
fn provider_registry() {
    let mut reg: ProviderRegistry<u32, &str> = ProviderRegistry::new();
    assert!(reg.active_llm().is_none());
    reg.register_llm("openai", 1);
    reg.register_llm("local", 2);
    assert_eq!(reg.active_llm(), Some(&1));
    assert!(reg.set_active_llm("local"));
    assert_eq!(reg.active_llm(), Some(&2));
    assert!(!reg.set_active_llm("missing"));
    assert_eq!(reg.active_llm(), Some(&2));
    reg.register_llm("openai", 7);
    assert_eq!(reg.list_llm_providers(), vec!["openai", "local"]);
    assert!(reg.set_active_llm("openai"));
    assert_eq!(reg.active_llm(), Some(&7));
    reg.register_stt("whisper", "w");
    assert_eq!(reg.active_stt(), Some(&"w"));
    assert!(reg.set_active_stt("whisper"));
    assert_eq!(reg.list_stt_providers(), vec!["whisper"]);
}

#[test]
fn fallback_steps() {
    let f = FallbackLlmProvider::new("cloud", "local");
    assert_eq!(*f.primary(), "cloud");
    assert_eq!(*f.fallback(), "local");
    assert_eq!(f.first_step(), FallbackStep::Primary { attempt: 1 });
    assert_eq!(f.after_primary_failure(1), FallbackStep::WaitThenPrimary { delay_ms: 500, attempt: 2 });
    assert_eq!(f.after_primary_failure(2), FallbackStep::WaitThenPrimary { delay_ms: 1000, attempt: 3 });
    assert_eq!(f.after_primary_failure(3), FallbackStep::Fallback);
    let none = FallbackLlmProvider::new(1, 2).with_max_retries(0);
    assert_eq!(none.first_step(), FallbackStep::Fallback);
    let many = FallbackLlmProvider::new(1, 2).with_max_retries(10);
    assert_eq!(many.after_primary_failure(5), FallbackStep::WaitThenPrimary { delay_ms: 8000, attempt: 6 });
}

#[test]
fn both_failed_message() {
    let e = both_failed("openai", &Some(LlmError::Provider("timeout".to_string())), "local", &LlmError::ModelNotLoaded);
    match e {
        LlmError::Provider(m) => assert_eq!(m, "Both primary (openai: Provider error: timeout) and fallback (local: Model not loaded) failed"),
        _ => panic!("expected a provider error"),
    }
    let e2 = both_failed("a", &None, "b", &LlmError::ContextOverflow { used: 5000, max: 4096 });
    match e2 {
        LlmError::Provider(m) => assert_eq!(m, "Both primary (a: ) and fallback (b: Context overflow: 5000 tokens exceeds 4096 limit) failed"),
        _ => panic!("expected a provider error"),
    }
    assert_eq!(LlmError::Inference("x".to_string()).message(), "Inference failed: x");
}

#[test]
fn keychain_entries() {
    let k = KeychainStore::new("voxnote");
    assert_eq!(k.entry_name("openai"), "voxnote-openai");
    assert!(k.store_key("openai", "sk-test").is_ok());
    assert!(matches!(k.get_key("openai"), Ok(None)));
    assert!(k.delete_key("openai").is_ok());
}

#[test]
fn voice_engines() {
    let cloud = OpenAiTtsProvider::new("key".to_string());
    assert_eq!(cloud.supported_languages(), &["ko".to_string(), "en".to_string(), "ja".to_string()]);
    assert_eq!(cloud.name(), "openai-tts");
    let local = LocalTtsProvider::new(std::path::PathBuf::from("/models/tts.onnx"));
    assert_eq!(local.supported_languages().len(), 3);
}

#[test]
fn markdown_dates_at_chrono_limits() {
    // the bounds are exactly chrono's first and last instants
    assert_eq!(chrono::DateTime::<chrono::Utc>::MIN_UTC.timestamp(), -8_334_601_228_800);
    assert_eq!(chrono::DateTime::<chrono::Utc>::MAX_UTC.timestamp(), 8_210_266_876_799);
    assert!(chrono::DateTime::from_timestamp(-8_334_601_228_801, 0).is_none());
    assert!(chrono::DateTime::from_timestamp(-8_334_601_315_200, 0).is_none());
    assert!(chrono::DateTime::from_timestamp(8_210_266_876_800, 0).is_none());
    for secs in [-8_334_601_228_800i64, 8_210_266_876_799, -1, 1_700_000_059] {
        let md = export_markdown(&ExportData { note: note_at(secs), segments: vec![], summary: None });
        let date = chrono::DateTime::from_timestamp(secs, 0).unwrap().format("%Y-%m-%d %H:%M").to_string();
        assert!(md.contains(&format!("**Date:** {}  \n", date)));
    }
}
