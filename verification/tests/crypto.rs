use base64::engine::general_purpose;
use base64::Engine;
use dwctl::crypto::{
    check_key, column_select_query, column_update_query, decode_key, decrypt_with_key,
    encrypt_with_key, encrypt_with_nonce, format_api_key, generate_api_key, hash_key_name,
    hmac_digest, join_envelope, split_envelope, EncryptedString,
};
use std::collections::HashSet;

#[test]
fn test_generate_api_key_format() {
    let key = generate_api_key();

    // Should start with "sk-"
    assert!(key.starts_with("sk-"));

    // Should be correct length: "sk-" (3) + base64url(32 bytes) (43)
    assert_eq!(key.len(), 46);

    // Should only contain valid base64url characters after prefix
    let key_part = &key[3..];
    assert!(key_part.chars().all(|c| c.is_ascii_alphanumeric() || c == '-' || c == '_'));
}

#[test]
fn test_generate_api_key_uniqueness() {
    let mut keys = HashSet::new();

    // Generate 1000 keys and ensure they're all unique
    for _ in 0..1000 {
        let key = generate_api_key();
        assert!(keys.insert(key), "Generated duplicate API key");
    }
}

#[test]
fn test_generate_api_key_no_padding() {
    let key = generate_api_key();

    // Should not contain padding characters
    assert!(!key.contains('='));
}

#[test]
fn test_encrypt_decrypt_roundtrip() {
    // Set up a test encryption key (32 bytes = 256 bits, base64 encoded)
    let test_key = general_purpose::STANDARD.encode([0u8; 32]);

    let plaintext = b"Hello, world! This is a test message.";

    // Encrypt
    let encrypted = encrypt_with_key(Some(&test_key), plaintext).expect("Encryption should succeed");

    // Should be valid base64
    assert!(general_purpose::STANDARD.decode(&encrypted).is_ok());

    // Decrypt
    let decrypted = decrypt_with_key(Some(&test_key), &encrypted).expect("Decryption should succeed");

    // Should match original plaintext
    assert_eq!(decrypted, plaintext);
}

#[test]
fn test_encrypt_without_key() {
    let plaintext = b"test";
    let result = encrypt_with_key(None, plaintext);

    // Should return plaintext as UTF-8 string
    assert!(result.is_ok());
    assert_eq!(result.unwrap(), "test");
}

#[test]
fn test_decrypt_without_key() {
    let result = decrypt_with_key(None, "some_data");

    // Should return data as bytes
    assert!(result.is_ok());
    assert_eq!(result.unwrap(), b"some_data");
}

#[test]
fn test_encrypt_with_invalid_key_length() {
    // Set up a key that's not 32 bytes
    let test_key = general_purpose::STANDARD.encode([0u8; 16]);

    let plaintext = b"test";
    let result = encrypt_with_key(Some(&test_key), plaintext);

    assert!(result.is_err());
    assert!(result.unwrap_err().message().contains("32 bytes"));
}

#[test]
fn test_decrypt_with_invalid_data() {
    let test_key = general_purpose::STANDARD.encode([0u8; 32]);

    // Too short data
    let result = decrypt_with_key(Some(&test_key), &general_purpose::STANDARD.encode([0u8; 5]));
    assert!(result.is_err());
}

#[test]
fn test_encryption_produces_different_ciphertexts() {
    let test_key = general_purpose::STANDARD.encode([0u8; 32]);

    let plaintext = b"same plaintext";

    // Encrypt the same plaintext twice
    let encrypted1 = encrypt_with_key(Some(&test_key), plaintext).expect("Encryption should succeed");
    let encrypted2 = encrypt_with_key(Some(&test_key), plaintext).expect("Encryption should succeed");

    // Should produce different ciphertexts due to random nonce
    assert_ne!(encrypted1, encrypted2);

    // But both should decrypt to the same plaintext
    let decrypted1 = decrypt_with_key(Some(&test_key), &encrypted1).expect("Decryption should succeed");
    let decrypted2 = decrypt_with_key(Some(&test_key), &encrypted2).expect("Decryption should succeed");

    assert_eq!(decrypted1, plaintext);
    assert_eq!(decrypted2, plaintext);
}

#[test]
fn test_hash_key_name_deterministic() {
    let test_key = general_purpose::STANDARD.encode([0u8; 32]);

    let key_name = "test_key";

    // Same key name should produce same hashed key name
    let hashed1 = hash_key_name(Some(&test_key), key_name).expect("Should hash key name");
    let hashed2 = hash_key_name(Some(&test_key), key_name).expect("Should hash key name");

    assert_eq!(hashed1, hashed2, "Hashed key names should be deterministic");
    assert!(hashed1.starts_with("enc_"), "Should have enc_ prefix");
    assert_eq!(hashed1.len(), 68, "Should be enc_ + 64 hex chars (SHA256)");
}

#[test]
fn test_hash_key_name_different_inputs() {
    let test_key = general_purpose::STANDARD.encode([0u8; 32]);

    let hashed1 = hash_key_name(Some(&test_key), "key1").expect("Should hash key name");
    let hashed2 = hash_key_name(Some(&test_key), "key2").expect("Should hash key name");

    assert_ne!(hashed1, hashed2, "Different key names should produce different hashes");
}

#[test]
fn test_hash_key_name_different_encryption_keys() {
    let test_key1 = general_purpose::STANDARD.encode([0u8; 32]);
    let test_key2 = general_purpose::STANDARD.encode([1u8; 32]);

    let hashed1 = hash_key_name(Some(&test_key1), "test_key").expect("Should hash key name");
    let hashed2 = hash_key_name(Some(&test_key2), "test_key").expect("Should hash key name");

    assert_ne!(
        hashed1, hashed2,
        "Same key name with different encryption keys should produce different hashes"
    );
}

#[test]
fn test_hash_key_name_without_key() {
    let result = hash_key_name(None, "test_key");

    // Should return the key name as-is
    assert!(result.is_ok());
    assert_eq!(result.unwrap(), "test_key");
}

#[test]
fn test_encrypted_string_with_key() {
    let test_key = general_purpose::STANDARD.encode([0u8; 32]);
    let plaintext = "my-secret-api-key";

    let encrypted = EncryptedString::new(plaintext, Some(&test_key))
        .expect("Should encrypt successfully");

    // Should be able to convert to String
    let encrypted_str: String = encrypted.clone().into();
    assert!(!encrypted_str.is_empty());
    assert_ne!(encrypted_str, plaintext);

    // Should be able to use AsRef
    assert!(!encrypted.as_ref().is_empty());
    assert_eq!(encrypted.as_str(), encrypted_str);
}

#[test]
fn test_encrypted_string_without_key() {
    let plaintext = "my-api-key";

    let encrypted = EncryptedString::new(plaintext, None)
        .expect("Should work without key");

    // Without encryption key, should return plaintext
    let encrypted_str: String = encrypted.into();
    assert_eq!(encrypted_str, plaintext);
}

#[test]
fn test_encrypted_string_roundtrip() {
    let test_key = general_purpose::STANDARD.encode([0u8; 32]);
    let plaintext = "test-secret";

    // Encrypt using EncryptedString
    let encrypted = EncryptedString::new(plaintext, Some(&test_key))
        .expect("Should encrypt successfully");

    let encrypted_str: String = encrypted.into();

    // Decrypt to verify
    let decrypted = decrypt_with_key(Some(&test_key), &encrypted_str)
        .expect("Should decrypt successfully");

    assert_eq!(decrypted, plaintext.as_bytes());
}

#[test]
fn test_encrypted_string_different_each_time() {
    let test_key = general_purpose::STANDARD.encode([0u8; 32]);
    let plaintext = "same-plaintext";

    let encrypted1 = EncryptedString::new(plaintext, Some(&test_key))
        .expect("Should encrypt successfully");

    let encrypted2 = EncryptedString::new(plaintext, Some(&test_key))
        .expect("Should encrypt successfully");

    // Due to random nonce, should produce different encrypted strings
    assert_ne!(encrypted1, encrypted2);

    // But both should decrypt to the same plaintext
    let encrypted_str1: String = encrypted1.into();
    let encrypted_str2: String = encrypted2.into();

    let decrypted1 = decrypt_with_key(Some(&test_key), &encrypted_str1)
        .expect("Should decrypt");
    let decrypted2 = decrypt_with_key(Some(&test_key), &encrypted_str2)
        .expect("Should decrypt");

    assert_eq!(decrypted1, plaintext.as_bytes());
    assert_eq!(decrypted2, plaintext.as_bytes());
}

#[test]
fn test_encrypted_string_decrypt_with_key() {
    let test_key = general_purpose::STANDARD.encode([0u8; 32]);
    let plaintext = "my-secret-data";

    // Encrypt
    let encrypted = EncryptedString::new(plaintext, Some(&test_key))
        .expect("Should encrypt successfully");

    // Decrypt
    let decrypted = encrypted.decrypt(Some(&test_key))
        .expect("Should decrypt successfully");

    assert_eq!(decrypted, plaintext);
}

#[test]
fn test_encrypted_string_decrypt_without_key() {
    let plaintext = "my-plaintext-data";

    // Create without encryption
    let encrypted = EncryptedString::new(plaintext, None)
        .expect("Should work without key");

    // Decrypt without key (should return the plaintext)
    let decrypted = encrypted.decrypt(None)
        .expect("Should decrypt successfully");

    assert_eq!(decrypted, plaintext);
}

#[test]
fn test_encrypted_string_decrypt_wrong_key() {
    let test_key1 = general_purpose::STANDARD.encode([0u8; 32]);
    let test_key2 = general_purpose::STANDARD.encode([1u8; 32]);
    let plaintext = "secret-data";

    // Encrypt with key1
    let encrypted = EncryptedString::new(plaintext, Some(&test_key1))
        .expect("Should encrypt successfully");

    // Try to decrypt with key2 (should fail)
    let result = encrypted.decrypt(Some(&test_key2));
    assert!(result.is_err());
}

#[test]
fn test_encrypted_string_decrypt_key_mismatch() {
    let test_key = general_purpose::STANDARD.encode([0u8; 32]);
    let plaintext = "secret-data";

    // Encrypt with key
    let encrypted = EncryptedString::new(plaintext, Some(&test_key))
        .expect("Should encrypt successfully");

    // Try to decrypt without key (should fail since data is encrypted)
    let result = encrypted.decrypt(None);
    // This might succeed if the encrypted data happens to be valid UTF-8, but will return garbage
    // The important thing is we can decrypt correctly with the right key
    let correct = encrypted.decrypt(Some(&test_key))
        .expect("Should decrypt with correct key");
    assert_eq!(correct, plaintext);

    // And it should fail with wrong parameters
    if let Ok(wrong) = result {
        assert_ne!(wrong, plaintext, "Decrypting with wrong key should not return correct plaintext");
    }
}

#[test]
fn api_key_of_given_bytes() {
    assert_eq!(format_api_key(&[0u8; 32]), format!("sk-{}", "A".repeat(43)));
    assert_eq!(format_api_key(&[0xff, 0xef]), "sk-_-8");
}

#[test]
fn key_material_is_thirty_two_bytes() {
    let key = general_purpose::STANDARD.encode([7u8; 32]);
    assert_eq!(decode_key(&key).unwrap(), vec![7u8; 32]);
    assert_eq!(
        decode_key("AAAA").unwrap_err().message(),
        "Encryption key must be 32 bytes (256 bits), got 3 bytes"
    );
    assert_eq!(
        decode_key("").unwrap_err().message(),
        "Encryption key must be 32 bytes (256 bits), got 0 bytes"
    );
    assert!(decode_key("!").unwrap_err().message().starts_with("Failed to decode encryption key: "));
    assert_eq!(
        check_key(Err("no".to_string())).unwrap_err().message(),
        "Failed to decode encryption key: no"
    );
}

#[test]
fn nonce_stands_in_front_of_the_ciphertext() {
    let key = general_purpose::STANDARD.encode([0u8; 32]);
    let nonce = [9u8; 12];
    let text = encrypt_with_nonce(&key, &nonce, b"abc").unwrap();
    let data = general_purpose::STANDARD.decode(&text).unwrap();
    assert_eq!(data.len(), 12 + 3 + 16);
    let (front, back) = split_envelope(&data).unwrap();
    assert_eq!(front, &nonce[..]);
    assert_eq!(join_envelope(front, back), data);
    assert_eq!(encrypt_with_nonce(&key, &nonce, b"abc").unwrap(), text);
    assert_eq!(decrypt_with_key(Some(&key), &text).unwrap(), b"abc");
}

#[test]
fn an_envelope_of_eleven_bytes_is_too_short() {
    assert_eq!(split_envelope(&[0u8; 11]).unwrap_err().message(), "Encrypted data too short");
    assert!(split_envelope(&[0u8; 12]).is_ok());
}

#[test]
fn a_changed_byte_is_noticed() {
    let key = general_purpose::STANDARD.encode([0u8; 32]);
    let text = encrypt_with_nonce(&key, &[1u8; 12], b"secret").unwrap();
    let mut data = general_purpose::STANDARD.decode(&text).unwrap();
    data[12] ^= 1;
    let changed = general_purpose::STANDARD.encode(&data);
    assert_eq!(
        decrypt_with_key(Some(&key), &changed).unwrap_err().message(),
        "Decryption failed: aead::Error"
    );
}

#[test]
fn data_that_is_not_base64_cannot_be_decrypted() {
    let key = general_purpose::STANDARD.encode([0u8; 32]);
    let message = decrypt_with_key(Some(&key), "***").unwrap_err().message();
    assert!(message.starts_with("Failed to decode encrypted data: "), "{message}");
}

#[test]
fn plaintext_without_a_key_must_be_text() {
    let message = encrypt_with_key(None, &[0xff]).unwrap_err().message();
    assert!(message.starts_with("Plaintext is not valid UTF-8: "), "{message}");
}

#[test]
fn decrypted_bytes_must_be_text() {
    let key = general_purpose::STANDARD.encode([0u8; 32]);
    let text = encrypt_with_nonce(&key, &[1u8; 12], &[0xff]).unwrap();
    let message = EncryptedString::from(text).decrypt(Some(&key)).unwrap_err().message();
    assert!(message.starts_with("Decrypted data is not valid UTF-8: "), "{message}");
}

#[test]
fn key_names_hash_with_hmac_sha256() {
    let key = general_purpose::STANDARD.encode([0u8; 32]);
    assert_eq!(
        hash_key_name(Some(&key), "test_key").unwrap(),
        "enc_2f5d5f5f53cd54ebe754cec3d0c30bdf960cee6e3fcde0fff14f3ff2a3ae317b"
    );
    let material: Vec<u8> = (0u8..32).collect();
    let key = general_purpose::STANDARD.encode(&material);
    assert_eq!(
        hash_key_name(Some(&key), "schl\u{fc}ssel").unwrap(),
        "enc_7f402a1d23406826b7eadfe9e6e4eb4e57698bfff8a554333d3f35d5d93364c4"
    );
}

#[test]
fn hmac_of_the_known_vector() {
    let digest = hmac_digest(b"Jefe", b"what do ya want for nothing?");
    assert_eq!(hex::encode(digest), "5bdcc146bf60754e6a042426089575c75a003f089d2739839dec58b964ec3843");
}

#[test]
fn key_names_need_a_valid_key() {
    assert_eq!(
        hash_key_name(Some("AAAA"), "n").unwrap_err().message(),
        "Encryption key must be 32 bytes (256 bits), got 3 bytes"
    );
}

#[test]
fn column_queries_name_their_columns() {
    assert_eq!(
        column_select_query("inference_endpoints", "id", "api_key"),
        "SELECT id, api_key FROM inference_endpoints WHERE api_key IS NOT NULL"
    );
    assert_eq!(
        column_update_query("inference_endpoints", "id", "api_key"),
        "UPDATE inference_endpoints SET api_key = $1 WHERE id = $2"
    );
}

#[test]
fn an_empty_key_encrypts_nothing() {
    assert_eq!(encrypt_with_key(Some(""), b"test").unwrap(), "test");
    assert_eq!(encrypt_with_key(Some(""), b"").unwrap(), "");
    let message = encrypt_with_key(Some(""), &[0xff]).unwrap_err().message();
    assert_eq!(message, encrypt_with_key(None, &[0xff]).unwrap_err().message());
    assert!(message.starts_with("Plaintext is not valid UTF-8: "), "{message}");
}

#[test]
fn an_empty_key_decrypts_nothing() {
    assert_eq!(decrypt_with_key(Some(""), "some_data").unwrap(), b"some_data");
    assert_eq!(decrypt_with_key(Some(""), "***").unwrap(), b"***");
    let stored = encrypt_with_key(Some(""), "schl\u{fc}ssel".as_bytes()).unwrap();
    assert_eq!(decrypt_with_key(Some(""), &stored).unwrap(), "schl\u{fc}ssel".as_bytes());
    assert_eq!(decrypt_with_key(None, &stored).unwrap(), "schl\u{fc}ssel".as_bytes());
}

#[test]
fn an_encrypted_string_takes_no_empty_key() {
    assert_eq!(
        EncryptedString::new("my-api-key", Some("")).unwrap_err().message(),
        "Encryption key must be 32 bytes (256 bits), got 0 bytes"
    );
    let stored = EncryptedString::new("my-api-key", None).unwrap();
    assert_eq!(
        stored.decrypt(Some("")).unwrap_err().message(),
        "Encryption key must be 32 bytes (256 bits), got 0 bytes"
    );
}

#[test]
fn an_encrypted_string_reads_back_after_storing() {
    let key = general_purpose::STANDARD.encode([3u8; 32]);
    for text in ["", "my-secret", "schl\u{fc}ssel"] {
        let stored = String::from(EncryptedString::new(text, Some(&key)).unwrap());
        assert_eq!(EncryptedString::from(stored).decrypt(Some(&key)).unwrap(), text);
        let plain = String::from(EncryptedString::new(text, None).unwrap());
        assert_eq!(EncryptedString::from(plain).decrypt(None).unwrap(), text);
    }
}

#[test]
fn different_nonces_store_different_texts() {
    let key = general_purpose::STANDARD.encode([0u8; 32]);
    let one = encrypt_with_nonce(&key, &[1u8; 12], b"same").unwrap();
    let two = encrypt_with_nonce(&key, &[2u8; 12], b"same").unwrap();
    assert_ne!(one, two);
    let data = general_purpose::STANDARD.decode(&one).unwrap();
    assert_eq!(data[..12], [1u8; 12]);
    assert_eq!(data.len(), 12 + 4 + 16);
    assert_eq!(decrypt_with_key(Some(&key), &one).unwrap(), b"same");
    assert_eq!(decrypt_with_key(Some(&key), &two).unwrap(), b"same");
}

#[test]
fn key_names_take_no_empty_key() {
    assert_eq!(
        hash_key_name(Some(""), "n").unwrap_err().message(),
        "Encryption key must be 32 bytes (256 bits), got 0 bytes"
    );
}
