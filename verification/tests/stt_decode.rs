use voxnote_core::error::SttError;
use voxnote_core::stt::qwen_asr;
use voxnote_core::stt::qwen_asr::{
    all_ids_fit, numeric_entries, token_table, tokenizer_table, vocab_from_json, vocab_from_json_checked,
    vocab_from_tokenizer_json, vocab_from_tokenizer_json_checked,
};
use voxnote_core::stt::sensevoice::{self, clean_sensevoice_output, language_id};
use voxnote_core::stt::Language;

#[test]
fn test_decode_tokens_basic() {
    let vocab = vec![
        "<|endoftext|>".to_string(),
        "Hello".to_string(),
        "\u{2581}world".to_string(),
        "<|im_end|>".to_string(),
    ];
    let tokens = vec![1i64, 2, 3];
    let text = qwen_asr::decode_tokens(&tokens, &vocab);
    assert_eq!(text, "Hello world");
}

#[test]
fn test_decode_tokens_special_only() {
    let vocab = vec!["<|endoftext|>".to_string(), "<|im_start|>".to_string()];
    let tokens = vec![0i64, 1];
    let text = qwen_asr::decode_tokens(&tokens, &vocab);
    assert_eq!(text, "");
}

#[test]
fn qwen_decode_skips_out_of_range_and_named_specials() {
    let vocab = vec!["<unk>".to_string(), "a".to_string(), "".to_string(), "</s>".to_string()];
    let tokens = vec![-1i64, 0, 1, 2, 3, 99];
    assert_eq!(qwen_asr::decode_tokens(&tokens, &vocab), "a");
}

#[test]
fn test_clean_sensevoice_output() {
    let input = "<|HAPPY|><|Speech|>Hello world<|BGM|>";
    assert_eq!(clean_sensevoice_output(input), "Hello world");
}

#[test]
fn clean_sensevoice_keeps_unknown_tags() {
    assert_eq!(clean_sensevoice_output(" <|en|>Hi<|SAD|> "), "<|en|>Hi");
}

#[test]
fn test_decode_tokens_skips_special() {
    let vocab = vec![
        "<sos>".to_string(),
        "\u{2581}Hello".to_string(),
        "\u{2581}world".to_string(),
        "<eos>".to_string(),
    ];
    let tokens = vec![0i64, 1, 2, 3];
    let text = sensevoice::decode_tokens(&tokens, &vocab);
    assert_eq!(text.trim(), "Hello world");
}

#[test]
fn sensevoice_decode_exact() {
    let vocab = vec!["a".to_string(), "\u{2581}b".to_string(), "<x>".to_string()];
    assert_eq!(sensevoice::decode_tokens(&[0, 1, 2, 5, -3], &vocab), "a b");
}

#[test]
fn sensevoice_language_ids() {
    assert_eq!(language_id(Some("zh")), 3);
    assert_eq!(language_id(Some("en")), 4);
    assert_eq!(language_id(Some("ja")), 11);
    assert_eq!(language_id(Some("ko")), 7);
    assert_eq!(language_id(Some("yue")), 13);
    assert_eq!(language_id(Some("fr")), 0);
    assert_eq!(language_id(None), 0);
}

#[test]
fn language_auto() {
    let l = Language::auto();
    assert_eq!(l.code, "auto");
    assert_eq!(l.name, "Auto-detect");
}

#[test]
fn vocab_json_builds_vocabulary() {
    let v = vocab_from_json_checked(r#"{"a": 0, "b": 1, "d": 3}"#).unwrap().unwrap();
    assert_eq!(v, vec!["a", "b", "", "d"]);
    assert_eq!(vocab_from_json(r#"{}"#).unwrap(), vec![""]);
    let table = token_table(r#"{"x": 5}"#).unwrap();
    assert_eq!(table, vec![("x".to_string(), 5usize)]);
}

#[test]
fn vocab_json_parse_errors() {
    match vocab_from_json_checked("[1, 2]") {
        Some(Err(SttError::Inference(m))) => assert!(m.starts_with("Failed to parse vocab.json: ")),
        _ => panic!("expected a parse error"),
    }
    match vocab_from_json(r#"{"a": -1}"#) {
        Err(SttError::Inference(m)) => assert!(m.starts_with("Failed to parse vocab.json: ")),
        _ => panic!("expected a parse error"),
    }
    assert!(vocab_from_json_checked(r#"{"a": 18446744073709551615}"#).is_none());
}

#[test]
fn tokenizer_json_builds_vocabulary() {
    let content = r#"{"version": "1.0", "model": {"type": "BPE", "vocab": {"a": 0, "b": 2, "c": "x"}}}"#;
    let v = vocab_from_tokenizer_json_checked(content).unwrap().unwrap().unwrap();
    assert_eq!(v, vec!["a", "", "b"]);
    assert!(matches!(vocab_from_tokenizer_json_checked(r#"{"version": "1.0"}"#), Some(Ok(None))));
    assert!(matches!(vocab_from_tokenizer_json(r#"{"model": {"vocab": 3}}"#), Ok(None)));
    match vocab_from_tokenizer_json_checked("not json") {
        Some(Err(SttError::Inference(m))) => assert!(m.starts_with("Failed to parse tokenizer.json: ")),
        _ => panic!("expected a parse error"),
    }
    let table = tokenizer_table(r#"{"model": {"vocab": {"z": 1, "y": null}}}"#).unwrap().unwrap();
    assert_eq!(table, vec![("z".to_string(), 1usize)]);
    let entries = vec![("p".to_string(), Some(4u64)), ("q".to_string(), None)];
    assert_eq!(numeric_entries(&entries), vec![("p".to_string(), 4usize)]);
    assert!(all_ids_fit(&vec![("p".to_string(), 4usize)]));
    assert!(!all_ids_fit(&vec![("p".to_string(), usize::MAX)]));
}
