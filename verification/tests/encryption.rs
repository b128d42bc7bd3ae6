use passlock::CryptoError;
use passlock::Encryptor;

#[test]
fn round_trip_hello_world() {
    let enc = Encryptor::new();
    let blob = enc.encrypt(b"hello world", "correct horse battery staple").unwrap();
    assert_eq!(blob.len(), 28 + 11 + 16);
    let back = enc.decrypt(&blob, "correct horse battery staple").unwrap();
    assert_eq!(back, b"hello world".to_vec());
}

#[test]
fn round_trip_empty_payload() {
    let enc = Encryptor::new();
    let blob = enc.encrypt(b"", "pw").unwrap();
    assert_eq!(blob.len(), 44);
    let back = enc.decrypt(&blob, "pw").unwrap();
    assert!(back.is_empty());
}

#[test]
fn round_trip_larger_payload() {
    let enc = Encryptor::new();
    let mut data = Vec::new();
    for i in 0..1000u32 {
        data.push((i % 251) as u8);
    }
    let blob = enc.encrypt(&data, "a longer passphrase with spaces").unwrap();
    assert_eq!(blob.len(), 28 + 1000 + 16);
    let back = enc.decrypt(&blob, "a longer passphrase with spaces").unwrap();
    assert_eq!(back, data);
}

#[test]
fn round_trip_empty_passphrase_accepted() {
    let enc = Encryptor::new();
    let blob = enc.encrypt(b"payload", "").unwrap();
    let back = enc.decrypt(&blob, "").unwrap();
    assert_eq!(back, b"payload".to_vec());
}

#[test]
fn wrong_passphrase_rejected() {
    let enc = Encryptor::new();
    let blob = enc.encrypt(b"hello world", "correct horse battery staple").unwrap();
    let r = enc.decrypt(&blob, "wrong passphrase");
    assert_eq!(r, Err(CryptoError::AuthenticationFailed));
}

#[test]
fn tamper_detection_single_bit_flips() {
    let enc = Encryptor::new();
    let blob = enc.encrypt(b"top secret", "letmein").unwrap();
    // One flip per region of the ciphertext-with-tag segment: each bit of the
    // first payload byte, one mid-payload bit, and each boundary of the tag.
    let last = blob.len() - 1;
    let mut flips: Vec<(usize, u8)> = Vec::new();
    for bit in 0..8u8 {
        flips.push((28, 1u8 << bit));
    }
    flips.push((28 + 5, 0x10));
    flips.push((blob.len() - 16, 0x01));
    flips.push((last, 0x80));
    for (byte, mask) in flips {
        let mut tampered = blob.clone();
        tampered[byte] ^= mask;
        let r = enc.decrypt(&tampered, "letmein");
        assert_eq!(r, Err(CryptoError::AuthenticationFailed));
    }
}

#[test]
fn tamper_detection_salt_and_nonce() {
    let enc = Encryptor::new();
    let blob = enc.encrypt(b"top secret", "letmein").unwrap();
    // A flipped salt bit changes the derived key; a flipped nonce bit changes
    // the keystream and the tag: both must fail authentication.
    for byte in [0usize, 15, 16, 27] {
        let mut tampered = blob.clone();
        tampered[byte] ^= 0x01;
        let r = enc.decrypt(&tampered, "letmein");
        assert_eq!(r, Err(CryptoError::AuthenticationFailed));
    }
}

#[test]
fn encryption_is_randomized() {
    let enc = Encryptor::new();
    let a = enc.encrypt(b"same input", "same passphrase").unwrap();
    let b = enc.encrypt(b"same input", "same passphrase").unwrap();
    assert_ne!(a, b);
    assert!(a[0..16] != b[0..16] || a[16..28] != b[16..28]);
}

#[test]
fn short_inputs_rejected_as_malformed() {
    let enc = Encryptor::new();
    for len in 0..28usize {
        let blob = vec![0xabu8; len];
        let r = enc.decrypt(&blob, "pw");
        assert_eq!(r, Err(CryptoError::MalformedInput));
    }
}

#[test]
fn header_only_input_fails_authentication() {
    let enc = Encryptor::new();
    let blob = vec![0xabu8; 28];
    let r = enc.decrypt(&blob, "pw");
    assert_eq!(r, Err(CryptoError::AuthenticationFailed));
}

#[test]
fn garbage_blob_fails_authentication() {
    let enc = Encryptor::new();
    let mut blob = Vec::new();
    for i in 0..44u32 {
        blob.push((i * 7 + 3) as u8);
    }
    let r = enc.decrypt(&blob, "pw");
    assert_eq!(r, Err(CryptoError::AuthenticationFailed));
}

#[test]
fn blob_frames_salt_nonce_and_sealed_payload() {
    let enc = Encryptor::new();
    let blob = enc.encrypt(b"framing check", "pw").unwrap();
    assert_eq!(blob.len(), 28 + 13 + 16);
    // The trailing segment really is ciphertext: it never equals the payload.
    assert_ne!(&blob[28..28 + 13], b"framing check".as_slice());
    // Reassembling the same segments gives a blob that still decrypts.
    let mut rebuilt = Vec::new();
    rebuilt.extend_from_slice(&blob[0..16]);
    rebuilt.extend_from_slice(&blob[16..28]);
    rebuilt.extend_from_slice(&blob[28..]);
    let back = enc.decrypt(&rebuilt, "pw").unwrap();
    assert_eq!(back, b"framing check".to_vec());
}

#[test]
fn blobs_from_one_encryptor_decrypt_under_another() {
    let enc_a = Encryptor::new();
    let enc_b = Encryptor::new();
    let blob = enc_a.encrypt(b"interoperable", "pw").unwrap();
    let back = enc_b.decrypt(&blob, "pw").unwrap();
    assert_eq!(back, b"interoperable".to_vec());
}

#[test]
fn fixed_salt_and_nonce_give_deterministic_blobs() {
    let enc = Encryptor::new();
    let salt: Vec<u8> = (0u8..16).collect();
    let nonce: Vec<u8> = (100u8..112).collect();
    let a = enc.encrypt_with(&salt, &nonce, b"payload", "pw").unwrap();
    let b = enc.encrypt_with(&salt, &nonce, b"payload", "pw").unwrap();
    assert_eq!(a, b);
    assert_eq!(&a[0..16], salt.as_slice());
    assert_eq!(&a[16..28], nonce.as_slice());
    assert_eq!(a.len(), 28 + 7 + 16);
    let back = enc.decrypt(&a, "pw").unwrap();
    assert_eq!(back, b"payload".to_vec());
}

#[test]
fn different_salts_give_different_blobs() {
    let enc = Encryptor::new();
    let salt_a = vec![1u8; 16];
    let salt_b = vec![2u8; 16];
    let nonce = vec![3u8; 12];
    let a = enc.encrypt_with(&salt_a, &nonce, b"payload", "pw").unwrap();
    let b = enc.encrypt_with(&salt_b, &nonce, b"payload", "pw").unwrap();
    assert_ne!(&a[28..], &b[28..]);
}
