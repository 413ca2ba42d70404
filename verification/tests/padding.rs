use pseudo_secure_channel::{add_padding, remove_padding, CryptoError, BLOCK_SIZE};

#[test]
fn padded_form_is_prefix_payload_filler() {
    let padded = add_padding("AB".as_bytes(), 20);
    assert_eq!(
        padded,
        vec![0, 0, 0, 0, 0, 0, 0, 2, 65, 66, 106, 183, 129, 127, 161, 118]
    );
}

#[test]
fn length_prefix_is_big_endian() {
    let payload = vec![7u8; 258];
    let padded = add_padding(&payload, 0);
    assert_eq!(&padded[..8], &[0, 0, 0, 0, 0, 0, 1, 2]);
    assert_eq!(&padded[8..266], &payload[..]);
    assert_eq!(padded.len(), 272);
    assert_eq!(&padded[266..], &[110, 80, 204, 249, 82, 46]);
}

#[test]
fn padded_lengths_at_the_boundaries() {
    let cases: [(usize, usize); 6] = [(0, 16), (1, 16), (15, 32), (16, 32), (17, 32), (4095, 4112)];
    for (len, expected) in cases {
        let payload = vec![0x5Au8; len];
        let padded = add_padding(&payload, 33);
        assert_eq!(padded.len(), expected);
        assert_eq!(padded.len(), 8 + len + ((16 - (8 + len) % 16) % 16));
        assert_eq!(padded.len() % BLOCK_SIZE, 0);
    }
}

#[test]
fn padded_length_is_always_whole_blocks() {
    for len in 0..100usize {
        let payload = vec![1u8; len];
        let padded = add_padding(&payload, len as u8);
        assert_eq!(padded.len() % 16, 0);
        assert!(padded.len() - (8 + len) < 16);
    }
}

#[test]
fn aligned_payload_gets_no_filler() {
    let payload = vec![9u8; 8];
    let padded = add_padding(&payload, 77);
    assert_eq!(padded.len(), 16);
    assert_eq!(&padded[8..], &payload[..]);
}

#[test]
fn padding_round_trips_for_every_seed() {
    let payloads: Vec<Vec<u8>> = vec![
        Vec::new(),
        vec![0],
        "AB".as_bytes().to_vec(),
        (0..15).collect(),
        (0..16).collect(),
        (0..17).collect(),
        (0..=255).collect(),
    ];
    for payload in &payloads {
        for k2 in 0..=255u8 {
            let padded = add_padding(payload, k2);
            assert_eq!(remove_padding(&padded), Ok(payload.clone()));
        }
    }
}

#[test]
fn filler_depends_on_the_seed_only() {
    let a = add_padding(&[1, 2, 3], 5);
    let b = add_padding(&[1, 2, 3], 5);
    let c = add_padding(&[1, 2, 3], 6);
    assert_eq!(a, b);
    assert_eq!(&a[..11], &c[..11]);
    assert_ne!(&a[11..], &c[11..]);
}

#[test]
fn remove_padding_rejects_short_buffers() {
    assert_eq!(remove_padding(&[]), Err(CryptoError::MalformedLength));
    assert_eq!(remove_padding(&[0; 7]), Err(CryptoError::MalformedLength));
}

#[test]
fn remove_padding_rejects_ragged_buffers() {
    assert_eq!(remove_padding(&[0; 8]), Err(CryptoError::BadBlockAlignment));
    assert_eq!(remove_padding(&[0; 17]), Err(CryptoError::BadBlockAlignment));
}

#[test]
fn remove_padding_rejects_overlong_declared_length() {
    let mut buffer = [0u8; 16];
    buffer[7] = 9;
    assert_eq!(remove_padding(&buffer), Err(CryptoError::LengthOverflow));
    buffer[7] = 8;
    assert_eq!(remove_padding(&buffer), Ok(vec![0u8; 8]));
    let huge = [0xFFu8; 16];
    assert_eq!(remove_padding(&huge), Err(CryptoError::LengthOverflow));
}

#[test]
fn remove_padding_ignores_the_filler() {
    let mut buffer = [0xEEu8; 16];
    for b in buffer.iter_mut().take(8) {
        *b = 0;
    }
    buffer[7] = 3;
    assert_eq!(remove_padding(&buffer), Ok(vec![0xEE, 0xEE, 0xEE]));
    buffer[7] = 0;
    assert_eq!(remove_padding(&buffer), Ok(Vec::new()));
}

#[test]
fn messages_name_the_fault() {
    assert_eq!(
        CryptoError::InvalidLength.message(),
        "Encrypted data length not multiple of block size"
    );
    assert_eq!(CryptoError::InvalidNonceLength.message(), "Invalid nonce length");
    assert_eq!(
        CryptoError::MalformedLength.message(),
        "Padded data too short to contain length"
    );
    assert_eq!(
        CryptoError::BadBlockAlignment.message(),
        "Padded data length not multiple of block size"
    );
    assert_eq!(
        CryptoError::LengthOverflow.message(),
        "Stored length exceeds padded data length"
    );
}
