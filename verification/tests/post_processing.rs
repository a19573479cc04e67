use voxnote_core::diarize::SpeakerSegment;
use voxnote_core::models::segment::Segment;
use voxnote_core::post_processor::aho_corasick::ProperNounMatcher;
use voxnote_core::post_processor::speaker_tagger::tag_speakers;
use voxnote_core::post_processor::typo_corrector::{correction_request, CORRECTION_INSTRUCTION};

#[test]
fn test_proper_noun_replacement() {
    let mut matcher = ProperNounMatcher::new();
    matcher.add_term("복스노트", "VoxNote");
    matcher.add_term("모네", "Monet");

    let result = matcher.process("복스노트 앱에서 모네를 사용합니다");
    assert!(result.contains("VoxNote"));
    assert!(result.contains("Monet"));
}

#[test]
fn proper_noun_exact_result() {
    let mut matcher = ProperNounMatcher::new();
    matcher.add_term("복스노트", "VoxNote");
    matcher.add_term("모네", "Monet");
    assert_eq!(matcher.process("복스노트 앱에서 모네를 사용합니다"), "VoxNote 앱에서 Monet를 사용합니다");
}

#[test]
fn proper_noun_ignores_case_and_replaces_first_only() {
    let mut matcher = ProperNounMatcher::new();
    matcher.add_term("VOXNOTE", "VoxNote");
    assert_eq!(matcher.process("voxnote and VOXNOTE"), "VoxNote and VOXNOTE");
}

#[test]
fn proper_noun_longest_first() {
    let mut matcher = ProperNounMatcher::new();
    matcher.add_term("new", "NEW");
    matcher.add_term("new york", "New York");
    // the longer term is replaced first, then the shorter one is found
    // again in the lower-cased result
    assert_eq!(matcher.process("i love new york"), "i love NEW York");
}

#[test]
fn proper_noun_re_adding_replaces() {
    let mut matcher = ProperNounMatcher::new();
    matcher.add_term("monet", "Manet");
    matcher.add_term("MONET", "Monet");
    assert_eq!(matcher.process("hi monet"), "hi Monet");
}

#[test]
fn proper_noun_load_vocabulary() {
    let mut matcher = ProperNounMatcher::new();
    matcher.load_vocabulary(vec![
        ("rust".to_string(), "Rust".to_string()),
        ("verus".to_string(), "Verus".to_string()),
    ]);
    assert_eq!(matcher.process("verus checks rust"), "Verus checks Rust");
}

#[test]
fn proper_noun_no_terms_keeps_text() {
    let matcher = ProperNounMatcher::new();
    assert_eq!(matcher.process("unchanged"), "unchanged");
}

#[test]
fn test_speaker_tagging() {
    let mut segments = vec![
        Segment::new("n1", "Hello", 0, 2000),
        Segment::new("n1", "World", 2000, 4000),
    ];

    let speaker_segments = vec![
        SpeakerSegment { speaker_id: "A".into(), start_ms: 0, end_ms: 2500, confidence: 0.9f32.to_bits() },
        SpeakerSegment { speaker_id: "B".into(), start_ms: 2500, end_ms: 5000, confidence: 0.8f32.to_bits() },
    ];

    tag_speakers(&mut segments, &speaker_segments);
    assert_eq!(segments[0].speaker_id, Some("A".to_string()));
    assert_eq!(segments[1].speaker_id, Some("B".to_string()));
}

#[test]
fn speaker_tagging_without_overlap_keeps_speaker() {
    let mut seg = Segment::new("n1", "late", 10_000, 12_000);
    seg.speaker_id = Some("X".to_string());
    let mut segments = vec![seg];
    let speakers = vec![SpeakerSegment { speaker_id: "A".into(), start_ms: 0, end_ms: 5000, confidence: 0 }];
    tag_speakers(&mut segments, &speakers);
    assert_eq!(segments[0].speaker_id, Some("X".to_string()));
    assert_eq!(segments[0].text, "late");
}

#[test]
fn speaker_tagging_ties_go_to_first() {
    let mut segments = vec![Segment::new("n1", "x", 0, 2000)];
    let speakers = vec![
        SpeakerSegment { speaker_id: "A".into(), start_ms: 0, end_ms: 1000, confidence: 0 },
        SpeakerSegment { speaker_id: "B".into(), start_ms: 1000, end_ms: 2000, confidence: 0 },
    ];
    tag_speakers(&mut segments, &speakers);
    assert_eq!(segments[0].speaker_id, Some("A".to_string()));
}

#[test]
fn speaker_tagging_at_extreme_times() {
    // only the overlap itself (10 ms here) has to fit in i64
    let mut segments = vec![Segment::new("n1", "x", i64::MIN, 0)];
    let speakers = vec![SpeakerSegment { speaker_id: "A".into(), start_ms: -10, end_ms: i64::MAX, confidence: 0 }];
    tag_speakers(&mut segments, &speakers);
    assert_eq!(segments[0].speaker_id, Some("A".to_string()));
}

#[test]
fn typo_request_for_blank_text_is_none() {
    assert!(correction_request("   \n\t").is_none());
    assert!(correction_request("").is_none());
}

#[test]
fn typo_request_prompt_and_budget() {
    let q = correction_request("helo wrld").unwrap();
    assert_eq!(q.prompt, format!("{}helo wrld", CORRECTION_INSTRUCTION));
    assert!(q.prompt.starts_with("Fix any typos or transcription errors in the following text."));
    assert_eq!(q.max_tokens, 18);
    // the budget counts UTF-8 bytes
    assert_eq!(correction_request("회의").unwrap().max_tokens, 12);
}
