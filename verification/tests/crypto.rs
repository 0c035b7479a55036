use chacha20poly1305::aead::{Aead, KeyInit};
use chacha20poly1305::{ChaCha20Poly1305, Key, Nonce};
use rds_cli::crypto::{
    frame_token, generate_key, is_encrypted, parse_token, Crypto, DecryptError, EncryptError,
};

#[test]
fn test_encrypt_decrypt() {
    let key = generate_key();
    let crypto = Crypto::new(&key);

    let plaintext = "my-secret-password";
    let encrypted = crypto.encrypt(plaintext).unwrap();
    assert!(encrypted.starts_with("enc:"));

    let decrypted = crypto.decrypt(&encrypted).unwrap();
    assert_eq!(decrypted, plaintext);
}

#[test]
fn test_different_nonces() {
    let key = generate_key();
    let crypto = Crypto::new(&key);

    let plaintext = "password";
    let enc1 = crypto.encrypt(plaintext).unwrap();
    let enc2 = crypto.encrypt(plaintext).unwrap();

    assert_ne!(enc1, enc2);
    assert_eq!(crypto.decrypt(&enc1).unwrap(), plaintext);
    assert_eq!(crypto.decrypt(&enc2).unwrap(), plaintext);
}

#[test]
fn encrypt_round_trips_edge_plaintexts() {
    let crypto = Crypto::new(&[7u8; 32]);
    for plaintext in ["", "s3cr3t", "enc:", "pässwörd ✓ 密码", "a\nb\u{0}c"] {
        let token = crypto.encrypt(plaintext).unwrap();
        assert!(is_encrypted(&token));
        assert_eq!(crypto.decrypt(&token).unwrap(), plaintext);
    }
}

#[test]
fn encrypt_token_has_the_length_of_nonce_text_and_tag() {
    let crypto = Crypto::new(&[1u8; 32]);
    let token = crypto.encrypt("s3cr3t").unwrap();
    // 12 + 6 + 16 bytes are 34 bytes, which base64 writes in 48 characters
    assert_eq!(token.len(), 4 + 48);
    let (_, ciphertext) = parse_token(&token).unwrap();
    assert_eq!(ciphertext.len(), 6 + 16);
    assert!(!token.contains("s3cr3t"));
}

#[test]
fn decrypt_under_another_key_fails_closed() {
    let crypto = Crypto::new(&[1u8; 32]);
    let other = Crypto::new(&[2u8; 32]);
    let token = crypto.encrypt("s3cr3t").unwrap();
    assert_eq!(
        other.decrypt(&token),
        Err(DecryptError::AuthenticationFailure)
    );
}

#[test]
fn decrypt_detects_a_flipped_byte_anywhere() {
    let crypto = Crypto::new(&[9u8; 32]);
    let token = crypto.encrypt("s3cr3t").unwrap();
    let (nonce, ciphertext) = parse_token(&token).unwrap();
    for position in 0..ciphertext.len() {
        let mut altered = ciphertext.clone();
        altered[position] ^= 0x01;
        let forged = frame_token(&nonce, &altered);
        assert_eq!(
            crypto.decrypt(&forged),
            Err(DecryptError::AuthenticationFailure)
        );
    }
    for position in 0..nonce.len() {
        let mut altered = nonce;
        altered[position] ^= 0x80;
        let forged = frame_token(&altered, &ciphertext);
        assert_eq!(
            crypto.decrypt(&forged),
            Err(DecryptError::AuthenticationFailure)
        );
    }
}

#[test]
fn decrypt_rejects_each_malformed_token_with_its_own_error() {
    let crypto = Crypto::new(&[3u8; 32]);
    assert_eq!(
        crypto.decrypt("plaintext"),
        Err(DecryptError::InvalidTokenFormat)
    );
    assert_eq!(crypto.decrypt(""), Err(DecryptError::InvalidTokenFormat));
    assert_eq!(crypto.decrypt("enc"), Err(DecryptError::InvalidTokenFormat));
    assert_eq!(
        crypto.decrypt("ENC:AAAA"),
        Err(DecryptError::InvalidTokenFormat)
    );
    assert_eq!(
        crypto.decrypt("enc:not base64!"),
        Err(DecryptError::InvalidEncoding)
    );
    assert_eq!(
        crypto.decrypt("enc:AAA"),
        Err(DecryptError::InvalidEncoding)
    );
    assert_eq!(crypto.decrypt("enc:"), Err(DecryptError::TruncatedData));
    // eleven bytes: one short of a nonce
    assert_eq!(
        crypto.decrypt("enc:AAAAAAAAAAAAAAA="),
        Err(DecryptError::TruncatedData)
    );
    // a nonce and nothing else: no tag to verify
    assert_eq!(
        crypto.decrypt("enc:AAAAAAAAAAAAAAAA"),
        Err(DecryptError::AuthenticationFailure)
    );
}

#[test]
fn decrypt_rejects_plaintext_that_is_not_utf8() {
    let key = [5u8; 32];
    let nonce = [6u8; 12];
    let sealed = ChaCha20Poly1305::new(Key::from_slice(&key))
        .encrypt(Nonce::from_slice(&nonce), [0xffu8, 0xfe].as_slice())
        .unwrap();
    let token = frame_token(&nonce, &sealed);
    assert_eq!(
        Crypto::new(&key).decrypt(&token),
        Err(DecryptError::InvalidPlaintext)
    );
}

#[test]
fn decrypt_reads_what_the_cipher_sealed() {
    let key = [5u8; 32];
    let nonce = [6u8; 12];
    let sealed = ChaCha20Poly1305::new(Key::from_slice(&key))
        .encrypt(Nonce::from_slice(&nonce), "s3cr3t".as_bytes())
        .unwrap();
    let token = frame_token(&nonce, &sealed);
    assert_eq!(Crypto::new(&key).decrypt(&token).unwrap(), "s3cr3t");
}

#[test]
fn frame_token_writes_prefix_and_base64() {
    let token = frame_token(&[0u8; 12], &vec![1, 2, 3]);
    assert_eq!(token, "enc:AAAAAAAAAAAAAAAAAQID");
    let token = frame_token(&[255u8; 12], &vec![]);
    assert_eq!(token, "enc:////////////////");
    let token = frame_token(&[0u8; 12], &vec![0xfb]);
    assert_eq!(token, "enc:AAAAAAAAAAAAAAAA+w==");
}

#[test]
fn parse_token_inverts_frame_token() {
    let nonce = [1u8, 2, 3, 4, 5, 6, 7, 8, 9, 10, 11, 12];
    let ciphertext = vec![200u8, 100, 50, 25];
    let token = frame_token(&nonce, &ciphertext);
    assert_eq!(parse_token(&token), Ok((nonce, ciphertext)));
    assert_eq!(
        parse_token("enc:AAAAAAAAAAAAAAAAAQID"),
        Ok(([0u8; 12], vec![1, 2, 3]))
    );
}

#[test]
fn is_encrypted_looks_at_the_prefix_alone() {
    assert!(is_encrypted("enc:"));
    assert!(is_encrypted("enc:anything at all"));
    assert!(!is_encrypted(""));
    assert!(!is_encrypted("enc"));
    assert!(!is_encrypted("Enc:abc"));
    assert!(!is_encrypted(" enc:abc"));
    assert!(!is_encrypted("ënc:"));
}

#[test]
fn generate_key_draws_fresh_keys() {
    let first = generate_key();
    let second = generate_key();
    assert_eq!(first.len(), 32);
    assert_ne!(first, second);
}

#[test]
fn cipher_error_messages() {
    assert_eq!(
        DecryptError::InvalidTokenFormat.message(),
        "Invalid encrypted format"
    );
    assert_eq!(
        DecryptError::InvalidEncoding.message(),
        "Invalid base64 encoding"
    );
    assert_eq!(
        DecryptError::TruncatedData.message(),
        "Invalid encrypted data"
    );
    assert_eq!(
        DecryptError::AuthenticationFailure.message(),
        "Decryption failed: aead::Error"
    );
    assert_eq!(
        DecryptError::InvalidPlaintext.message(),
        "Invalid UTF-8 in decrypted data"
    );
    assert_eq!(
        EncryptError::PlaintextTooLong.message(),
        "Encryption failed: plaintext too long"
    );
}
