use voxnote_core::digest::{hex_encode, sha256_hex, Sha256Stream};
use voxnote_core::error::ModelError;
use voxnote_core::model_manager::disk::{df_free_bytes, space_mb, DiskManager, MIB};
use voxnote_core::model_manager::downloader::{accepts_status, after_last_slash_chars, range_header, total_bytes};
use voxnote_core::model_manager::integrity::{skips_verification, verify_sha256};
use voxnote_core::model_manager::loader::ModelLoader;
use voxnote_core::model_manager::registry::{ModelEntry, ModelRegistry, ModelType};
use std::path::PathBuf;

fn entry(id: &str, model_type: ModelType, size_bytes: u64, min_ram_mb: u32) -> ModelEntry {
    ModelEntry {
        id: id.to_string(),
        name: id.to_uppercase(),
        model_type,
        size_bytes,
        quantization: None,
        languages: vec!["en".to_string()],
        min_ram_mb,
        gpu_recommended: false,
        download_url: format!("https://models.example/{}", id),
        sha256: "placeholder".to_string(),
        description: None,
    }
}

#[test]
fn test_compute_sha256() {
    let hash = sha256_hex(b"hello voxnote");
    assert_eq!(hash.len(), 64);
}

#[test]
fn test_verify_sha256() {
    let hash = sha256_hex(b"hello voxnote");
    assert!(verify_sha256(&hash, &hash).unwrap());
    assert!(verify_sha256("wrong_hash", &hash).is_err());
}

#[test]
fn sha256_known_digest() {
    assert_eq!(sha256_hex(b"abc"), "ba7816bf8f01cfea414140de5dae2223b00361a396177a9cb410ff61f20015ad");
    assert_eq!(sha256_hex(b""), "e3b0c44298fc1c149afbf4c8996fb92427ae41e4649b934ca495991b7852b855");
}

#[test]
fn hex_encoding() {
    assert_eq!(hex_encode(&[0x00, 0x0f, 0xa5, 0xff]), "000fa5ff");
    assert_eq!(hex_encode(&[]), "");
}

#[test]
fn verify_sha256_cases() {
    let hash = sha256_hex(b"hello voxnote");
    // the registry digest may be upper case
    assert!(verify_sha256(&hash.to_uppercase(), &hash).unwrap());
    // placeholders are not checked
    assert!(verify_sha256("", "anything").unwrap());
    assert!(verify_sha256("placeholder-sha", "anything").unwrap());
    assert!(skips_verification("placeholder"));
    assert!(!skips_verification("Placeholder"));
    match verify_sha256("abc", &hash) {
        Err(ModelError::IntegrityCheck { expected, actual }) => {
            assert_eq!(expected, "abc");
            assert_eq!(actual, hash);
        }
        _ => panic!("expected an integrity error"),
    }
}

#[test]
fn size_display_formats() {
    assert_eq!(entry("a", ModelType::Stt, 77_691_713, 0).size_display(), "74 MB");
    assert_eq!(entry("a", ModelType::Stt, 0, 0).size_display(), "0 MB");
    // exactly half a mebibyte rounds to even
    assert_eq!(entry("a", ModelType::Stt, 524_288, 0).size_display(), "0 MB");
    assert_eq!(entry("a", ModelType::Stt, 3 * 524_288, 0).size_display(), "2 MB");
    assert_eq!(entry("a", ModelType::Llm, 1 << 30, 0).size_display(), "1.0 GB");
    assert_eq!(entry("a", ModelType::Llm, 1_610_612_736, 0).size_display(), "1.5 GB");
    assert_eq!(entry("a", ModelType::Llm, 4_920_000_000, 0).size_display(), "4.6 GB");
    // below 1 GiB stays in megabytes
    assert_eq!(entry("a", ModelType::Llm, (1 << 30) - 1, 0).size_display(), "1024 MB");
}

#[test]
fn size_display_matches_float_formatting() {
    for &size in &[1u64, 1_000_000, 52_428_800, 99_999_999, 1_073_741_824, 2_147_483_648, 7_516_192_768, 123_456_789_012] {
        let expected = if size >= 1024 * 1024 * 1024 {
            format!("{:.1} GB", size as f64 / (1024.0 * 1024.0 * 1024.0))
        } else {
            format!("{:.0} MB", size as f64 / (1024.0 * 1024.0))
        };
        assert_eq!(entry("x", ModelType::Stt, size, 0).size_display(), expected);
    }
}

#[test]
fn registry_queries() {
    let reg = ModelRegistry {
        models: vec![
            entry("whisper-tiny-q8", ModelType::Stt, 77_691_713, 2048),
            entry("llama-3b", ModelType::Llm, 2_000_000_000, 8192),
            entry("whisper-base", ModelType::Stt, 150_000_000, 4096),
            entry("whisper-tiny-q8", ModelType::Tts, 1, 1),
        ],
    };
    let stt: Vec<&str> = reg.models_by_type(&ModelType::Stt).iter().map(|m| m.id.as_str()).collect();
    assert_eq!(stt, vec!["whisper-tiny-q8", "whisper-base"]);
    assert!(reg.models_by_type(&ModelType::Embedding).is_empty());
    let small: Vec<&str> = reg.models_for_ram(4096).iter().map(|m| m.id.as_str()).collect();
    assert_eq!(small, vec!["whisper-tiny-q8", "whisper-base", "whisper-tiny-q8"]);
    // the first entry with the id wins
    let m = reg.get_model("whisper-tiny-q8").unwrap();
    assert_eq!(m.model_type, ModelType::Stt);
    assert_eq!(m.min_ram_mb, 2048);
    assert_eq!(m.size_display(), "74 MB");
    assert!(reg.get_model("missing").is_none());
}

#[test]
fn disk_space_check() {
    let disk = DiskManager::new(PathBuf::from("/tmp/voxnote-models"), 100);
    assert!(disk.check_space(0, 100 * MIB).is_ok());
    assert!(disk.check_space(MIB, 99 * MIB).is_ok());
    match disk.check_space(60 * MIB, 50 * MIB) {
        Err(ModelError::InsufficientDisk { need_mb, available_mb }) => {
            assert_eq!(need_mb, 50);
            assert_eq!(available_mb, 40);
        }
        _ => panic!("expected insufficient disk"),
    }
    // more in use than allowed: nothing is left
    match disk.check_space(200 * MIB, 1) {
        Err(ModelError::InsufficientDisk { need_mb, available_mb }) => {
            assert_eq!(need_mb, 0);
            assert_eq!(available_mb, 0);
        }
        _ => panic!("expected insufficient disk"),
    }
}

#[test]
fn disk_paths() {
    let disk = DiskManager::new(PathBuf::from("/nonexistent-voxnote"), 1);
    assert_eq!(disk.model_path("m.bin"), PathBuf::from("/nonexistent-voxnote/m.bin"));
    assert!(!disk.is_downloaded("m.bin"));
}

#[test]
fn loader_resolution() {
    let loader = ModelLoader::new(PathBuf::from("/nonexistent-voxnote"));
    match loader.resolve_model_path("gone") {
        Err(ModelError::NotFound(id)) => assert_eq!(id, "gone"),
        _ => panic!("expected not found"),
    }
    assert!(loader.can_load(&ModelType::Embedding));
    assert!(!loader.can_load(&ModelType::Stt));
    assert!(!loader.can_load(&ModelType::Llm));
}

#[test]
fn download_range_header() {
    assert_eq!(range_header(0), None);
    assert_eq!(range_header(1234).unwrap(), "bytes=1234-");
}

#[test]
fn download_status() {
    assert!(accepts_status(200));
    assert!(accepts_status(206));
    assert!(!accepts_status(404));
    assert!(!accepts_status(302));
    assert!(!accepts_status(500));
}

#[test]
fn download_total_size() {
    assert_eq!(total_bytes(200, None, Some(500), 0), 500);
    assert_eq!(total_bytes(200, Some("bytes 0-1/9"), None, 0), 0);
    assert_eq!(total_bytes(206, Some("bytes 100-999/1000"), Some(900), 100), 1000);
    assert_eq!(total_bytes(206, Some("bytes 100-999/*"), Some(900), 100), 1000);
    assert_eq!(total_bytes(206, Some("bytes 100-999/*"), Some(800), 100), 900);
    assert_eq!(total_bytes(206, None, None, 100), 100);
    assert_eq!(total_bytes(206, Some("4096"), Some(1), 0), 4096);
}

#[test]
fn after_last_slash() {
    let v: Vec<char> = "a/b/cd".chars().collect();
    assert_eq!(after_last_slash_chars(&v).into_iter().collect::<String>(), "cd");
    let w: Vec<char> = "abc/".chars().collect();
    assert!(after_last_slash_chars(&w).is_empty());
    let x: Vec<char> = "abc".chars().collect();
    assert_eq!(after_last_slash_chars(&x).into_iter().collect::<String>(), "abc");
}

#[test]
fn free_space_in_whole_mebibytes() {
    assert_eq!(space_mb(0), 0);
    assert_eq!(space_mb(MIB - 1), 0);
    assert_eq!(space_mb(5 * MIB + 7), 5);
    assert_eq!(space_mb(u64::MAX), u64::MAX / 1_048_576);
}

#[test]
fn streamed_digest_equals_one_shot_digest() {
    let data = b"The quick brown fox jumps over the lazy dog";
    let mut h = Sha256Stream::new();
    h.update(&data[..10]);
    h.update(&[]);
    h.update(&data[10..]);
    assert_eq!(h.finalize_hex(), sha256_hex(data));
    assert_eq!(
        Sha256Stream::new().finalize_hex(),
        "e3b0c44298fc1c149afbf4c8996fb92427ae41e4649b934ca495991b7852b855"
    );
}

#[test]
fn free_space_from_df_report() {
    let report = "Filesystem     1024-blocks      Used Available Capacity Mounted on\n/dev/sda1        102400000  50000000  52400000      49% /\n";
    assert_eq!(df_free_bytes(report), Some(52_400_000 * 1024));
    assert_eq!(space_mb(df_free_bytes(report).unwrap()), 51_171);
    assert_eq!(df_free_bytes("Filesystem 1024-blocks Used Available\n/dev/x 10 5 7"), Some(7 * 1024));
    assert_eq!(df_free_bytes("only a header\n"), None);
    assert_eq!(df_free_bytes("header\n/dev/x 10 5"), None);
    assert_eq!(df_free_bytes("header\n/dev/x 10 5 lots"), None);
    assert_eq!(df_free_bytes("header\n/dev/x 1 1 18014398509481984"), None);
    assert_eq!(df_free_bytes(""), None);
}
