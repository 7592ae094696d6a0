use lazy_locker::crypto::{decrypt, encrypt, CryptoError};

/// Generates a valid 32-byte test key
fn test_key() -> [u8; 32] {
    [0x42u8; 32]
}

#[test]
fn test_encrypt_produces_different_output() {
    let key = test_key();
    let plaintext = b"my_secret_value";

    let encrypted = encrypt(plaintext, &key).expect("Encryption should succeed");

    assert_ne!(encrypted.as_slice(), plaintext);
    // nonce (12 bytes) + ciphertext + tag (16 bytes)
    assert!(encrypted.len() > plaintext.len() + 12);
}

#[test]
fn test_encrypt_decrypt_roundtrip() {
    let key = test_key();
    let plaintext = b"sensitive_api_key_12345";

    let encrypted = encrypt(plaintext, &key).expect("Encryption should succeed");
    let decrypted = decrypt(&encrypted, &key).expect("Decryption should succeed");

    assert_eq!(decrypted, plaintext);
}

#[test]
fn test_encrypt_different_nonces() {
    let key = test_key();
    let plaintext = b"same_value";

    let encrypted1 = encrypt(plaintext, &key).expect("Encryption 1 should succeed");
    let encrypted2 = encrypt(plaintext, &key).expect("Encryption 2 should succeed");

    assert_ne!(
        encrypted1, encrypted2,
        "Same plaintext should encrypt to different ciphertext"
    );
}

#[test]
fn test_decrypt_with_wrong_key_fails() {
    let key1 = test_key();
    let key2 = [0x99u8; 32];
    let plaintext = b"secret";

    let encrypted = encrypt(plaintext, &key1).expect("Encryption should succeed");
    let result = decrypt(&encrypted, &key2);

    assert!(result.is_err(), "Decryption with wrong key should fail");
}

#[test]
fn test_decrypt_corrupted_data_fails() {
    let key = test_key();
    let plaintext = b"secret";

    let mut encrypted = encrypt(plaintext, &key).expect("Encryption should succeed");
    if encrypted.len() > 15 {
        encrypted[15] ^= 0xFF;
    }

    let result = decrypt(&encrypted, &key);
    assert!(result.is_err(), "Decryption of corrupted data should fail");
}

#[test]
fn test_encrypt_empty_data() {
    let key = test_key();
    let plaintext = b"";

    let encrypted = encrypt(plaintext, &key).expect("Encryption of empty data should succeed");
    let decrypted = decrypt(&encrypted, &key).expect("Decryption should succeed");

    assert_eq!(decrypted, plaintext);
}

#[test]
fn test_encrypt_large_data() {
    let key = test_key();
    let plaintext: Vec<u8> = (0..10_000).map(|i| (i % 256) as u8).collect();

    let encrypted = encrypt(&plaintext, &key).expect("Encryption of large data should succeed");
    let decrypted = decrypt(&encrypted, &key).expect("Decryption should succeed");

    assert_eq!(decrypted, plaintext);
}

#[test]
fn test_encrypt_unicode_data() {
    let key = test_key();
    let plaintext = "Cl√© secr√®te: Êó•Êú¨Ë™û üîê √©mojis".as_bytes();

    let encrypted = encrypt(plaintext, &key).expect("Encryption should succeed");
    let decrypted = decrypt(&encrypted, &key).expect("Decryption should succeed");

    assert_eq!(decrypted, plaintext);
    assert_eq!(
        String::from_utf8(decrypted).unwrap(),
        "Cl√© secr√®te: Êó•Êú¨Ë™û üîê √©mojis"
    );
}

#[test]
fn sealed_blob_has_nonce_and_tag_around_ciphertext() {
    let key = test_key();
    let blob = encrypt(b"abc", &key).unwrap();
    assert_eq!(blob.len(), 12 + 3 + 16);
}

#[test]
fn blob_shorter_than_nonce_and_tag_is_rejected() {
    let key = test_key();
    assert_eq!(decrypt(&[0u8; 27], &key), Err(CryptoError::Rejected));
    assert_eq!(decrypt(&[], &key), Err(CryptoError::Rejected));
}

#[test]
fn flipping_any_byte_is_rejected() {
    let key = test_key();
    let blob = encrypt(b"payload", &key).unwrap();
    for i in 0..blob.len() {
        let mut bad = blob.clone();
        bad[i] ^= 0x01;
        assert_eq!(decrypt(&bad, &key), Err(CryptoError::Rejected), "byte {}", i);
    }
}

#[test]
fn truncated_blob_is_rejected() {
    let key = test_key();
    let blob = encrypt(b"payload", &key).unwrap();
    assert!(decrypt(&blob[..blob.len() - 1], &key).is_err());
}
