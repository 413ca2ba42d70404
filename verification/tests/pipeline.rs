use pseudo_secure_channel::{
    decrypt, decrypt_with_table, derive_keys, encrypt, encrypt_with_nonce, encrypt_with_table,
    generate_nonce, pre_shared_secret, CryptoError, SBox, NONCE_SIZE,
};

fn sample(len: usize) -> Vec<u8> {
    (0..len).map(|i| (i * 7 + 3) as u8).collect()
}

#[test]
fn round_trip_with_injected_nonces() {
    let nonces: Vec<Vec<u8>> = vec![vec![0u8; 16], (1..=16).collect(), vec![0xFF; 16]];
    for len in [0usize, 1, 2, 15, 16, 17, 255, 4095] {
        let payload = sample(len);
        for nonce in &nonces {
            let encrypted = encrypt_with_nonce(&payload, nonce);
            assert_eq!(encrypted.len() % 16, 0);
            assert_eq!(decrypt(&encrypted, nonce), Ok(payload.clone()));
        }
    }
}

#[test]
fn round_trip_of_the_empty_payload() {
    let nonce = [3u8; 16];
    let encrypted = encrypt_with_nonce(&[], &nonce);
    assert_eq!(encrypted.len(), 16);
    assert_eq!(decrypt(&encrypted, &nonce), Ok(Vec::new()));
}

#[test]
fn round_trip_with_a_fresh_nonce() {
    let payload = "This is some important data being sent securely (not really).".as_bytes();
    let (encrypted, nonce) = encrypt(payload);
    assert_eq!(nonce.len(), NONCE_SIZE);
    assert_eq!(encrypted.len(), 80);
    assert_ne!(&encrypted[8..8 + payload.len()], payload);
    assert_eq!(decrypt(&encrypted, &nonce), Ok(payload.to_vec()));
}

#[test]
fn fresh_nonces_are_random() {
    let a = generate_nonce();
    let b = generate_nonce();
    assert_eq!(a.len(), 16);
    assert_eq!(b.len(), 16);
    assert_ne!(a, vec![0u8; 16]);
    assert_ne!(a, b);
}

#[test]
fn round_trip_with_a_custom_table() {
    let table: Vec<u8> = (0..=255u8).map(|b| b.wrapping_mul(3).wrapping_add(1)).collect();
    let sbox = SBox::from_table(&table).unwrap();
    let nonce = [1u8, 2, 3, 4, 5, 6, 7, 8, 9, 10, 11, 12, 13, 14, 15, 16];
    for len in [0usize, 5, 24, 100] {
        let payload = sample(len);
        let encrypted = encrypt_with_table(&sbox, &payload, &nonce);
        assert_eq!(decrypt_with_table(&sbox, &encrypted, &nonce), Ok(payload));
    }
}

#[test]
fn ciphertext_under_the_identity_table_is_exact() {
    let identity: Vec<u8> = (0..=255u8).collect();
    let sbox = SBox::from_table(&identity).unwrap();
    let encrypted = encrypt_with_table(&sbox, "AB".as_bytes(), &[0u8; 16]);
    assert_eq!(
        encrypted,
        vec![148, 67, 226, 226, 226, 226, 226, 224, 163, 160, 136, 85, 99, 157, 226, 226]
    );
}

#[test]
fn ciphertext_under_a_shifting_table_is_exact() {
    let table: Vec<u8> = (0..=255u8).map(|b| b.wrapping_add(1)).collect();
    let sbox = SBox::from_table(&table).unwrap();
    let encrypted = encrypt_with_table(&sbox, "AB".as_bytes(), &[0u8; 16]);
    assert_eq!(
        encrypted,
        vec![149, 68, 227, 227, 227, 227, 227, 225, 164, 161, 137, 86, 100, 158, 227, 227]
    );
    assert_eq!(
        decrypt_with_table(&sbox, &encrypted, &[0u8; 16]),
        Ok("AB".as_bytes().to_vec())
    );
}

#[test]
fn concrete_vector() {
    let nonce = [0u8; 16];
    let (k1, k2) = derive_keys(&pre_shared_secret(), &nonce);
    assert_eq!((k1, k2), (226, 20));
    let first = encrypt_with_nonce("AB".as_bytes(), &nonce);
    let second = encrypt_with_nonce("AB".as_bytes(), &nonce);
    assert_eq!(first, second);
    assert_eq!(first.len(), 16);
    let sbox = SBox::standard();
    let xored: [u8; 16] = [
        226, 226, 226, 226, 226, 226, 226, 224, 163, 160, 136, 85, 99, 157, 67, 148,
    ];
    let mut expected: Vec<u8> = xored.iter().map(|b| sbox.forward(*b)).collect();
    expected.swap(0, 15);
    expected.swap(1, 14);
    assert_eq!(first, expected);
    assert_eq!(
        first,
        vec![238, 75, 222, 222, 222, 222, 222, 5, 142, 90, 213, 151, 66, 247, 222, 222]
    );
    assert_eq!(decrypt(&first, &nonce), Ok("AB".as_bytes().to_vec()));
}

#[test]
fn nonces_with_different_keys_give_different_ciphertexts() {
    let secret = pre_shared_secret();
    let a = [1u8, 2, 3];
    let b = [1u8, 2, 3, 4, 5];
    assert_ne!(derive_keys(&secret, &a).0, derive_keys(&secret, &b).0);
    let payload = sample(40);
    assert_ne!(encrypt_with_nonce(&payload, &a), encrypt_with_nonce(&payload, &b));
}

#[test]
fn nonces_with_equal_keys_give_equal_ciphertexts() {
    let secret = pre_shared_secret();
    let a = [0u8; 16];
    let b = [0xA5u8; 16];
    assert_eq!(derive_keys(&secret, &a), derive_keys(&secret, &b));
    let payload = sample(21);
    assert_eq!(encrypt_with_nonce(&payload, &a), encrypt_with_nonce(&payload, &b));
}

#[test]
fn decrypt_rejects_ragged_ciphertext() {
    assert_eq!(decrypt(&[0u8; 17], &[0u8; 16]), Err(CryptoError::InvalidLength));
    assert_eq!(decrypt(&[0u8; 17], &[0u8; 8]), Err(CryptoError::InvalidLength));
    assert_eq!(decrypt(&[0u8; 1], &[0u8; 16]), Err(CryptoError::InvalidLength));
}

#[test]
fn decrypt_rejects_wrong_nonce_size() {
    assert_eq!(decrypt(&[0u8; 16], &[0u8; 8]), Err(CryptoError::InvalidNonceLength));
    assert_eq!(decrypt(&[0u8; 32], &[0u8; 17]), Err(CryptoError::InvalidNonceLength));
    assert_eq!(decrypt(&[], &[]), Err(CryptoError::InvalidNonceLength));
}

#[test]
fn decrypt_of_nothing_is_malformed() {
    assert_eq!(decrypt(&[], &[0u8; 16]), Err(CryptoError::MalformedLength));
}

#[test]
fn decrypt_reports_overflowing_length() {
    let identity: Vec<u8> = (0..=255u8).collect();
    let sbox = SBox::from_table(&identity).unwrap();
    let nonce = [0u8; 16];
    let mut encrypted = encrypt_with_table(&sbox, "AB".as_bytes(), &nonce);
    encrypted[7] ^= 0x10;
    assert_eq!(
        decrypt_with_table(&sbox, &encrypted, &nonce),
        Err(CryptoError::LengthOverflow)
    );
}

#[test]
fn damaged_payload_bytes_pass_unnoticed() {
    let nonce = [0u8; 16];
    let mut encrypted = encrypt_with_nonce("AB".as_bytes(), &nonce);
    encrypted[8] ^= 0x01;
    let decrypted = decrypt(&encrypted, &nonce).unwrap();
    assert_eq!(decrypted.len(), 2);
    assert_ne!(decrypted, "AB".as_bytes().to_vec());
}
