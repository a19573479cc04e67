use voxnote_core::storage::crypto::{frame_message, nonce_from_parts, split_message, CryptoLayer, NonceSource};
use voxnote_core::error::CryptoError;
use voxnote_core::sync::client::{on_message, Incoming, MessageAction, SyncClient, SyncEvent, MAX_RETRIES};
use voxnote_core::sync::encryption::{zstd_compress, zstd_decompress, SyncEncryption};
use voxnote_core::sync::key_exchange::{digest_pairing_code, generate_device_keypair, generate_pairing_code};

const NONCE: [u8; 12] = [7, 1, 2, 3, 4, 5, 6, 7, 8, 9, 10, 11];

#[test]
fn test_encrypt_decrypt_roundtrip() {
    let salt = b"voxnote-test-salt-16b";

    let crypto = CryptoLayer::from_password("test-password-123", salt).unwrap();

    let plaintext = b"Hello, VoxNote! This is a secret message.";
    let encrypted = crypto.encrypt_with_nonce(&NONCE, plaintext).unwrap();

    assert_ne!(&encrypted[12..], plaintext.as_slice());

    let decrypted = crypto.decrypt(&encrypted).unwrap();
    assert_eq!(decrypted, plaintext);
}

#[test]
fn test_wrong_password_fails() {
    let salt = b"voxnote-test-salt-16b";

    let crypto1 = CryptoLayer::from_password("password1", salt).unwrap();
    let crypto2 = CryptoLayer::from_password("password2", salt).unwrap();

    let encrypted = crypto1.encrypt_with_nonce(&NONCE, b"secret data").unwrap();
    assert!(crypto2.decrypt(&encrypted).is_err());
}

#[test]
fn test_from_key() {
    let key = [42u8; 32];
    let crypto = CryptoLayer::from_key(&key).unwrap();

    let encrypted = crypto.encrypt_with_nonce(&NONCE, b"test").unwrap();
    let decrypted = crypto.decrypt(&encrypted).unwrap();
    assert_eq!(decrypted, b"test");
}

#[test]
fn sealed_message_layout() {
    let crypto = CryptoLayer::from_key(&[1u8; 32]).unwrap();
    let sealed = crypto.encrypt_with_nonce(&NONCE, b"abc").unwrap();
    // nonce, then ciphertext of the same length, then a 16-byte tag
    assert_eq!(sealed.len(), 12 + 3 + 16);
    assert_eq!(&sealed[..12], &NONCE);
    assert_eq!(crypto.encrypt_with_nonce(&NONCE, b"").unwrap().len(), 28);
}

#[test]
fn short_message_is_refused() {
    let crypto = CryptoLayer::from_key(&[1u8; 32]).unwrap();
    match crypto.decrypt(&[0u8; 11]) {
        Err(CryptoError::Decryption(m)) => assert_eq!(m, "Data too short"),
        _ => panic!("expected a decryption error"),
    }
}

#[test]
fn tampered_message_is_refused() {
    let crypto = CryptoLayer::from_key(&[9u8; 32]).unwrap();
    let mut sealed = crypto.encrypt_with_nonce(&NONCE, b"payload").unwrap();
    sealed[14] ^= 1;
    assert!(matches!(crypto.decrypt(&sealed), Err(CryptoError::Decryption(_))));
}

#[test]
fn short_salt_fails_key_derivation() {
    assert!(matches!(CryptoLayer::from_password("pw", b"short"), Err(CryptoError::KeyDerivation(_))));
}

#[test]
fn frame_and_split_are_inverse() {
    let framed = frame_message(&NONCE, &[100, 101]);
    assert_eq!(framed.len(), 14);
    let (n, rest) = split_message(&framed).unwrap();
    assert_eq!(n, NONCE);
    assert_eq!(rest, vec![100, 101]);
    assert!(split_message(&[1, 2, 3]).is_err());
}

#[test]
fn nonce_parts_little_endian() {
    let n = nonce_from_parts(0x0605_0403_0201, 0x0a09_0807, 0x0c0b);
    assert_eq!(n, [1, 2, 3, 4, 5, 6, 7, 8, 9, 10, 11, 12]);
    // only the low bytes are used
    let m = nonce_from_parts(0xff_0000_0000_0000, 0xff_0000_0000, 0xff_0000);
    assert_eq!(m, [0u8; 12]);
}

#[test]
fn sync_delta_roundtrip() {
    let enc = SyncEncryption::new(CryptoLayer::from_key(&[3u8; 32]).unwrap());
    let sealed = enc.encrypt_delta(&NONCE, b"delta-bytes").unwrap();
    assert_eq!(enc.decrypt_delta(&sealed).unwrap(), b"delta-bytes");
    assert!(enc.decrypt_delta(&[1, 2]).is_err());
    let other = SyncEncryption::new(CryptoLayer::from_key(&[4u8; 32]).unwrap());
    assert!(other.decrypt_delta(&sealed).is_err());
}

#[test]
fn compression_is_identity() {
    assert_eq!(zstd_compress(&[1, 2, 3]), vec![1, 2, 3]);
    assert_eq!(zstd_decompress(&[4, 5]).unwrap(), vec![4, 5]);
}

#[test]
fn test_pairing_code() {
    let code = generate_pairing_code("device-1", &[1, 2, 3]);
    assert_eq!(code.len(), 6);
    assert!(code.chars().all(|c| c.is_ascii_digit()));
}

#[test]
fn pairing_code_of_digest() {
    let mut d = [0u8; 32];
    assert_eq!(digest_pairing_code(&d), "000000");
    // 0x000F4240 = 1_000_000 -> 0
    d[0] = 0x40;
    d[1] = 0x42;
    d[2] = 0x0f;
    assert_eq!(digest_pairing_code(&d), "000000");
    // 0xFFFFFFFF = 4294967295 -> 967295
    let e = [0xffu8; 32];
    assert_eq!(digest_pairing_code(&e), "967295");
    d = [0u8; 32];
    d[0] = 42;
    assert_eq!(digest_pairing_code(&d), "000042");
}

#[test]
fn pairing_code_is_deterministic_and_depends_on_input() {
    let a = generate_pairing_code("device-1", &[1, 2, 3]);
    assert_eq!(a, generate_pairing_code("device-1", &[1, 2, 3]));
    let b = generate_pairing_code("device-2", &[1, 2, 3]);
    let c = generate_pairing_code("device-1", &[1, 2, 4]);
    assert!(a != b || a != c);
}

#[test]
fn placeholder_keypair() {
    let k = generate_device_keypair("dev");
    assert_eq!(k.device_id, "dev");
    assert_eq!(k.public_key, vec![0u8; 32]);
}

#[test]
fn sync_client_connection_and_backoff() {
    let mut c = SyncClient::new("wss://sync.example", "tok");
    assert!(!c.is_connected());
    assert_eq!(c.connect_url(), "wss://sync.example/api/v1/sync/connect?token=tok");
    assert!(c.send_delta(vec![1]).is_err());
    assert!(matches!(c.on_connected(), SyncEvent::Connected));
    assert!(c.is_connected());
    assert!(c.send_delta(vec![1]).is_ok());

    let waits: Vec<Option<u64>> = (0..11).map(|_| c.on_disconnected()).collect();
    assert_eq!(
        waits,
        vec![Some(2), Some(4), Some(8), Some(16), Some(32), Some(64), Some(64), Some(64), Some(64), Some(64), None]
    );
    assert_eq!(waits.len(), MAX_RETRIES as usize + 1);
    assert!(!c.is_connected());
    assert_eq!(c.send_delta(vec![]).unwrap_err(), "Not connected");

    // a success starts the count over
    let _ = c.on_connected();
    assert_eq!(c.on_disconnected(), Some(2));
}

#[test]
fn every_connect_run_starts_counting_from_zero() {
    let mut c = SyncClient::new("wss://sync.example", "tok");
    for _run in 0..2 {
        c.begin_run();
        let mut attempts = 0;
        loop {
            attempts += 1;
            if c.on_disconnected().is_none() {
                break;
            }
        }
        assert_eq!(attempts, 11);
        assert!(!c.is_connected());
    }
}

#[test]
fn nonce_source_counts_nonces() {
    let mut src = NonceSource::new();
    let a = src.next(0x0605_0403_0201, 0x0c0b);
    let b = src.next(0x0605_0403_0201, 0x0c0b);
    assert_eq!(a, [1, 2, 3, 4, 5, 6, 0, 0, 0, 0, 0x0b, 0x0c]);
    assert_eq!(b, [1, 2, 3, 4, 5, 6, 1, 0, 0, 0, 0x0b, 0x0c]);
    assert_ne!(a[6..10], b[6..10]);
}

#[test]
fn sealed_message_is_nonce_plus_plaintext_plus_tag() {
    let c = CryptoLayer::from_key(&[3u8; 32]).unwrap();
    let p = b"Hello, VoxNote! This is a secret message.";
    let e = c.encrypt_with_nonce(&[9u8; 12], p).unwrap();
    assert_eq!(e.len(), 12 + p.len() + 16);
    assert_ne!(&e[12..], &p[..]);
}

#[test]
fn sync_message_actions() {
    match on_message(Incoming::Binary(vec![9, 8])) {
        MessageAction::Forward(SyncEvent::DeltaReceived { data }) => assert_eq!(data, vec![9, 8]),
        _ => panic!("expected a forwarded delta"),
    }
    assert!(matches!(on_message(Incoming::Close), MessageAction::Disconnect));
    assert!(matches!(on_message(Incoming::Ended), MessageAction::Disconnect));
    assert!(matches!(on_message(Incoming::Failed), MessageAction::Disconnect));
    assert!(matches!(on_message(Incoming::Other), MessageAction::Ignore));
}
