use neochat_core::storage::{
    decode_storage_blob, encode_storage_blob, encode_storage_blob_with_nonce, StorageError,
};

// 112 bytes: with nonce and tag the payload is 140 bytes, a multiple of five,
// so every base-32 character of the file carries data bits.
const STATE: &[u8] = br#"{"user":{"id":"u1","username":"Alice"},"chats":{"c1":{}},"messages":{"c1":[{"text":"hi"}]},"contacts":{"u2":{}}}"#;

#[test]
fn storage_round_trip() {
    let key = [9u8; 32];
    let file = encode_storage_blob(&key, STATE).unwrap();
    assert!(file.iter().all(|b| b.is_ascii_uppercase() || (b'2'..=b'7').contains(b) || *b == b'='));
    assert_eq!(file.len() % 8, 0);
    assert_eq!(decode_storage_blob(&key, &file).unwrap(), STATE.to_vec());
}

#[test]
fn storage_fresh_nonce_each_save() {
    let key = [9u8; 32];
    let one = encode_storage_blob(&key, STATE).unwrap();
    let two = encode_storage_blob(&key, STATE).unwrap();
    assert_ne!(one, two);
}

#[test]
fn storage_known_nonce_prefix() {
    let key = [1u8; 32];
    let file = encode_storage_blob_with_nonce(&key, &[0u8; 12], b"").unwrap();
    // 12 zero bytes and a 16-byte tag: 28 bytes, 48 characters with padding.
    assert_eq!(file.len(), 48);
    assert!(file.starts_with(b"AAAAAAAAAAAAAAAAAAA"));
    assert_eq!(decode_storage_blob(&key, &file).unwrap(), Vec::<u8>::new());
}

#[test]
fn storage_flipped_byte_fails() {
    let key = [9u8; 32];
    let file = encode_storage_blob(&key, STATE).unwrap();
    for i in 0..file.len() {
        let mut bad = file.clone();
        bad[i] = if bad[i] == b'A' { b'B' } else { b'A' };
        assert!(decode_storage_blob(&key, &bad).is_err(), "byte {}", i);
    }
}

#[test]
fn storage_wrong_key_fails() {
    let file = encode_storage_blob(&[9u8; 32], STATE).unwrap();
    assert_eq!(decode_storage_blob(&[8u8; 32], &file), Err(StorageError::DecryptionFailed));
}

#[test]
fn storage_malformed_files() {
    let key = [9u8; 32];
    assert_eq!(decode_storage_blob(&key, &[0xff, 0xfe]), Err(StorageError::InvalidText));
    assert_eq!(decode_storage_blob(&key, b"not base32!"), Err(StorageError::InvalidBase32));
    assert_eq!(decode_storage_blob(&key, b"AAAAAAAA"), Err(StorageError::TooShort));
}

#[test]
fn storage_file_hides_state() {
    let key = [9u8; 32];
    let file = encode_storage_blob_with_nonce(&key, &[5u8; 12], STATE).unwrap();
    let text = std::str::from_utf8(&file).unwrap();
    let payload = base32::decode(base32::Alphabet::RFC4648 { padding: true }, text).unwrap();
    assert_eq!(&payload[..12], &[5u8; 12]);
    assert_eq!(payload.len(), 12 + STATE.len() + 16);
    assert_ne!(&payload[12..12 + STATE.len()], STATE);
}
