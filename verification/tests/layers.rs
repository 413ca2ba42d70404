use pseudo_secure_channel::{
    derive_keys, inverse_permute_blocks, inverse_substitute, is_permutation, permute_blocks,
    pre_shared_secret, substitute, xor_with_key, Lcg, SBox, LCG_A, LCG_C, SBOX_SEED,
};

fn draw(seed: u8, n: usize) -> Vec<u8> {
    let mut g = Lcg::new(seed);
    let mut out = Vec::new();
    for _ in 0..n {
        out.push(g.next());
    }
    out
}

#[test]
fn lcg_streams_are_exact() {
    assert_eq!(draw(0, 8), vec![110, 80, 204, 249, 82, 46, 254, 217]);
    assert_eq!(draw(1, 8), vec![136, 136, 22, 115, 240, 152, 86, 98]);
    assert_eq!(draw(0xCD, 8), vec![197, 114, 74, 151, 121, 12, 209, 142]);
    assert_eq!(draw(255, 8), vec![187, 116, 142, 102, 61, 191, 23, 80]);
}

#[test]
fn lcg_is_replayable() {
    for seed in 0..=255u8 {
        assert_eq!(draw(seed, 40), draw(seed, 40));
    }
}

#[test]
fn lcg_constants() {
    assert_eq!(LCG_A, 1664525);
    assert_eq!(LCG_C, 1013904223);
    assert_eq!(SBOX_SEED, 1664525u64 ^ 1013904223u64);
}

#[test]
fn secret_is_the_fixed_text() {
    let secret = pre_shared_secret();
    assert_eq!(secret.len(), 32);
    assert_eq!(&secret[..30], "this_is_a_very_secret_key_1234".as_bytes());
    assert_eq!(&secret[30..], &[0u8, 0u8]);
}

#[test]
fn derive_keys_exact_values() {
    let secret = pre_shared_secret();
    assert_eq!(derive_keys(&secret, &[0u8; 16]), (226, 20));
    assert_eq!(derive_keys(&secret, &[1, 2, 3]), (224, 19));
    assert_eq!(derive_keys(&secret, &[1, 2, 3, 4, 5]), (230, 15));
    assert_eq!(derive_keys(&[1, 2, 3], &[0x10, 0x20]), (184, 239));
    assert_eq!(derive_keys(&[1, 2, 3, 4, 5, 6, 7, 8, 9], &[0]), (163, 213));
}

#[test]
fn derive_keys_with_empty_sources() {
    assert_eq!(derive_keys(&[], &[]), (0xAB, 0xCD));
    assert_eq!(derive_keys(&[], &[1, 2, 3]), (168, 207));
    assert_eq!(derive_keys(&[1, 2, 3], &[]), (168, 207));
}

#[test]
fn derive_keys_is_deterministic() {
    let secret = pre_shared_secret();
    let nonce: Vec<u8> = (1..=16).collect();
    assert_eq!(derive_keys(&secret, &nonce), derive_keys(&secret, &nonce));
}

#[test]
fn sixteen_byte_nonces_cancel_out_of_the_keys() {
    let secret = pre_shared_secret();
    let counting: Vec<u8> = (1..=16).collect();
    assert_eq!(derive_keys(&secret, &counting), (226, 20));
    assert_eq!(derive_keys(&secret, &[0xFF; 16]), (226, 20));
}

#[test]
fn xor_layer_exact_and_self_inverse() {
    let mut data = vec![0x00, 0xFF, 0x41, 0x42, 0xE2];
    xor_with_key(&mut data, 0xE2);
    assert_eq!(data, vec![0xE2, 0x1D, 0xA3, 0xA0, 0x00]);
    xor_with_key(&mut data, 0xE2);
    assert_eq!(data, vec![0x00, 0xFF, 0x41, 0x42, 0xE2]);
    let mut empty: Vec<u8> = Vec::new();
    xor_with_key(&mut empty, 7);
    assert!(empty.is_empty());
}

#[test]
fn permutation_swaps_the_ends_of_full_blocks_only() {
    let mut data: Vec<u8> = (0..40).collect();
    permute_blocks(&mut data);
    let expected: Vec<u8> = vec![
        15, 14, 2, 3, 4, 5, 6, 7, 8, 9, 10, 11, 12, 13, 1, 0, 31, 30, 18, 19, 20, 21, 22, 23, 24, 25,
        26, 27, 28, 29, 17, 16, 32, 33, 34, 35, 36, 37, 38, 39,
    ];
    assert_eq!(data, expected);
    inverse_permute_blocks(&mut data);
    let start: Vec<u8> = (0..40).collect();
    assert_eq!(data, start);
}

#[test]
fn permutation_leaves_short_buffers_alone() {
    let mut data: Vec<u8> = (0..15).collect();
    permute_blocks(&mut data);
    assert_eq!(data, (0..15).collect::<Vec<u8>>());
    inverse_permute_blocks(&mut data);
    assert_eq!(data, (0..15).collect::<Vec<u8>>());
    let mut empty: Vec<u8> = Vec::new();
    permute_blocks(&mut empty);
    assert!(empty.is_empty());
}

#[test]
fn inverse_permutation_is_the_same_map() {
    let mut a: Vec<u8> = (100..148).collect();
    let mut b = a.clone();
    permute_blocks(&mut a);
    inverse_permute_blocks(&mut b);
    assert_eq!(a, b);
}

#[test]
fn standard_box_is_a_bijection() {
    let sbox = SBox::standard();
    for b in 0..=255u8 {
        assert_eq!(sbox.inverse(sbox.forward(b)), b);
        assert_eq!(sbox.forward(sbox.inverse(b)), b);
    }
}

#[test]
fn standard_box_is_shuffled_and_stable() {
    let first = SBox::standard();
    let second = SBox::standard();
    let table: Vec<u8> = (0..=255u8).map(|b| first.forward(b)).collect();
    let again: Vec<u8> = (0..=255u8).map(|b| second.forward(b)).collect();
    let identity: Vec<u8> = (0..=255u8).collect();
    assert_eq!(table, again);
    assert_ne!(table, identity);
    assert!(is_permutation(&table));
    let mut sorted = table.clone();
    sorted.sort();
    assert_eq!(sorted, identity);
}

#[test]
fn box_from_a_table_keeps_the_table() {
    let table: Vec<u8> = (0..=255u8).map(|b| b.wrapping_add(1)).collect();
    let sbox = SBox::from_table(&table).unwrap();
    for b in 0..=255u8 {
        assert_eq!(sbox.forward(b), b.wrapping_add(1));
        assert_eq!(sbox.inverse(b), b.wrapping_sub(1));
    }
}

#[test]
fn box_rejects_what_is_no_permutation() {
    let identity: Vec<u8> = (0..=255u8).collect();
    assert!(SBox::from_table(&identity).is_some());
    assert!(SBox::from_table(&identity[..255]).is_none());
    assert!(SBox::from_table(&[]).is_none());
    let mut doubled = identity.clone();
    doubled[200] = 3;
    assert!(SBox::from_table(&doubled).is_none());
    assert!(!is_permutation(&doubled));
    let mut longer = identity.clone();
    longer.push(0);
    assert!(!is_permutation(&longer));
    assert!(is_permutation(&identity));
}

#[test]
fn substitution_maps_each_byte_on_its_own() {
    let table: Vec<u8> = (0..=255u8).map(|b| b.wrapping_add(1)).collect();
    let sbox = SBox::from_table(&table).unwrap();
    let mut data = vec![0, 1, 254, 255, 65, 65];
    substitute(&mut data, &sbox);
    assert_eq!(data, vec![1, 2, 255, 0, 66, 66]);
    inverse_substitute(&mut data, &sbox);
    assert_eq!(data, vec![0, 1, 254, 255, 65, 65]);
}

#[test]
fn standard_substitution_round_trips() {
    let sbox = SBox::standard();
    let start: Vec<u8> = (0..=255u8).rev().collect();
    let mut data = start.clone();
    substitute(&mut data, &sbox);
    assert_ne!(data, start);
    inverse_substitute(&mut data, &sbox);
    assert_eq!(data, start);
    inverse_substitute(&mut data, &sbox);
    substitute(&mut data, &sbox);
    assert_eq!(data, start);
}
