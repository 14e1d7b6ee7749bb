use content_licensing::cipher::{decrypt_chunk_session_bound, encrypt_chunk, generate_key, CryptoError};

#[test]
fn test_keygen() {
    let key = generate_key();
    assert_eq!(key.len(), 32);
    assert_ne!(key, [0u8; 32].to_vec());
}

#[test]
fn test_encryption_decryption() {
    let key = generate_key();
    let data = b"Hello World".to_vec();

    let encrypted = encrypt_chunk(&data, &key).unwrap();
    assert_ne!(encrypted, data);

    let decrypted = decrypt_chunk_session_bound(&encrypted, &key).unwrap();
    assert_eq!(decrypted, data);
}

#[test]
fn test_wrong_key() {
    let key1 = generate_key();
    let key2 = generate_key();
    let data = b"Secret".to_vec();

    let encrypted = encrypt_chunk(&data, &key1).unwrap();
    let result = decrypt_chunk_session_bound(&encrypted, &key2);

    assert!(result.is_err());
}

#[test]
fn test_tampered_data() {
    let key = generate_key();
    let data = b"Sensitive".to_vec();

    let mut encrypted = encrypt_chunk(&data, &key).unwrap();
    let len = encrypted.len();
    encrypted[len - 1] ^= 0xFF;

    let result = decrypt_chunk_session_bound(&encrypted, &key);
    assert!(result.is_err());
}

#[test]
fn round_trip_empty_chunk() {
    let key = generate_key();
    let data: Vec<u8> = Vec::new();

    let encrypted = encrypt_chunk(&data, &key).unwrap();
    assert_eq!(encrypted.len(), 28);

    let decrypted = decrypt_chunk_session_bound(&encrypted, &key).unwrap();
    assert_eq!(decrypted, data);
}

#[test]
fn hello_world_output_is_39_bytes() {
    let key = generate_key();
    let data = b"Hello World".to_vec();

    let encrypted = encrypt_chunk(&data, &key).unwrap();
    assert_eq!(encrypted.len(), 39);

    let decrypted = decrypt_chunk_session_bound(&encrypted, &key).unwrap();
    assert_eq!(decrypted, data);

    let other_key = generate_key();
    let result = decrypt_chunk_session_bound(&encrypted, &other_key);
    assert_eq!(result.unwrap_err(), CryptoError::AuthenticationFailure);
}

#[test]
fn ciphertext_differs_from_plaintext() {
    let key = generate_key();
    let data = b"Hello World".to_vec();

    let encrypted = encrypt_chunk(&data, &key).unwrap();
    let body = &encrypted[12..encrypted.len() - 16];
    assert_eq!(body.len(), data.len());
    assert_ne!(body, &data[..]);
}

#[test]
fn key_sensitivity_fails_with_authentication_failure() {
    let key1 = generate_key();
    let key2 = generate_key();
    assert_ne!(key1, key2);

    let samples: [&[u8]; 4] = [b"", b"a", b"Hello World", b"a longer chunk of content bytes"];
    for sample in samples.iter() {
        let encrypted = encrypt_chunk(&sample.to_vec(), &key1).unwrap();
        let result = decrypt_chunk_session_bound(&encrypted, &key2);
        assert_eq!(result.unwrap_err(), CryptoError::AuthenticationFailure);
    }
}

#[test]
fn any_single_bit_flip_is_detected() {
    let key = generate_key();
    let data = b"Hello World".to_vec();
    let encrypted = encrypt_chunk(&data, &key).unwrap();

    for byte in 12..encrypted.len() {
        for bit in 0..8 {
            let mut tampered = encrypted.clone();
            tampered[byte] ^= 1u8 << bit;
            let result = decrypt_chunk_session_bound(&tampered, &key);
            assert_eq!(result.unwrap_err(), CryptoError::AuthenticationFailure);
        }
    }
}

#[test]
fn nonces_are_unique_across_calls() {
    let key = generate_key();
    let data = b"chunk".to_vec();

    let mut nonces: Vec<Vec<u8>> = Vec::new();
    for _ in 0..64 {
        let encrypted = encrypt_chunk(&data, &key).unwrap();
        nonces.push(encrypted[..12].to_vec());
    }
    for i in 0..nonces.len() {
        for j in (i + 1)..nonces.len() {
            assert_ne!(nonces[i], nonces[j]);
        }
    }
}

#[test]
fn invalid_key_length_is_rejected() {
    let short_key = vec![7u8; 31];
    let data = b"data".to_vec();

    let enc = encrypt_chunk(&data, &short_key);
    assert_eq!(enc.unwrap_err(), CryptoError::InvalidKeyLength);

    let dec = decrypt_chunk_session_bound(&data, &short_key);
    assert_eq!(dec.unwrap_err(), CryptoError::InvalidKeyLength);
}

#[test]
fn short_input_is_rejected() {
    let key = generate_key();
    let short_input = vec![0u8; 11];

    let dec = decrypt_chunk_session_bound(&short_input, &key);
    assert_eq!(dec.unwrap_err(), CryptoError::InputTooShort);
}
