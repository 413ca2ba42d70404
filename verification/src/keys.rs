//! Derivation of the two key bytes from the pre-shared secret and a nonce.

use vstd::prelude::*;
use crate::constants::{KEY_DERIVATION_CONSTANT_1, KEY_DERIVATION_CONSTANT_2};

verus! {

/// `x` rotated left by one byte.
pub open spec fn rotate_left_8_spec(x: u64) -> u64 {
    (x << 8) | (x >> 56)
}

/// The byte that round `i` reads from `source`: the source is read
/// cyclically, and an empty source reads as zero.
pub open spec fn source_byte(source: Seq<u8>, i: int) -> u8 {
    if source.len() == 0 {
        0u8
    } else {
        source[i % (source.len() as int)]
    }
}

/// Number of folding rounds: the length of the longer input.
pub open spec fn derivation_rounds(secret: Seq<u8>, nonce: Seq<u8>) -> nat {
    if secret.len() >= nonce.len() {
        secret.len()
    } else {
        nonce.len()
    }
}

/// The 64-bit accumulator after `n` rounds. Each round rotates it left by
/// one byte and XORs in the XOR of the two bytes read in that round.
pub open spec fn key_material(secret: Seq<u8>, nonce: Seq<u8>, n: nat) -> u64
    decreases n,
{
    if n == 0 {
        0u64
    } else {
        rotate_left_8_spec(key_material(secret, nonce, (n - 1) as nat)) ^ ((source_byte(
            secret,
            n - 1,
        ) ^ source_byte(nonce, n - 1)) as u64)
    }
}

/// The first key byte taken from a final accumulator: its low byte XORed
/// with the first derivation constant.
pub open spec fn first_key(material: u64) -> u8 {
    ((material & 0xff) as u8) ^ KEY_DERIVATION_CONSTANT_1
}

/// The second key byte taken from a final accumulator: its second-lowest
/// byte plus the second derivation constant, modulo 256.
pub open spec fn second_key(material: u64) -> u8 {
    ((((material >> 8) & 0xff) as int + KEY_DERIVATION_CONSTANT_2 as int) % 256) as u8
}

/// The pair `(k1, k2)` that a secret and a nonce determine.
pub open spec fn derive_keys_spec(secret: Seq<u8>, nonce: Seq<u8>) -> (u8, u8) {
    let material = key_material(secret, nonce, derivation_rounds(secret, nonce));
    (first_key(material), second_key(material))
}

fn rotate_left_8(x: u64) -> (r: u64)
    ensures
        r == rotate_left_8_spec(x),
{
    (x << 8) | (x >> 56)
}

fn byte_at(source: &[u8], i: usize) -> (b: u8)
    ensures
        b == source_byte(source@, i as int),
{
    if source.len() == 0 {
        0
    } else {
        source[i % source.len()]
    }
}

/// Derives the key pair from a secret and a nonce: `k1` drives the XOR
/// layer, `k2` seeds the padding generator. Equal inputs always give equal
/// keys, which is what lets a receiver rebuild `k1` from the nonce alone.
pub fn derive_keys(pss: &[u8], nonce: &[u8]) -> (keys: (u8, u8))
    ensures
        keys == derive_keys_spec(pss@, nonce@),
{
    let rounds: usize = if pss.len() >= nonce.len() {
        pss.len()
    } else {
        nonce.len()
    };
    let mut material: u64 = 0;
    let mut i: usize = 0;
    while i < rounds
        invariant
            i <= rounds,
            rounds == derivation_rounds(pss@, nonce@),
            material == key_material(pss@, nonce@, i as nat),
        decreases rounds - i,
    {
        let mixed: u8 = byte_at(pss, i) ^ byte_at(nonce, i);
        material = rotate_left_8(material) ^ (mixed as u64);
        i += 1;
    }
    let low: u64 = material & 0xff;
    let second: u64 = (material >> 8) & 0xff;
    assert(low <= 0xff) by (bit_vector)
        requires
            low == material & 0xff,
    ;
    assert(second <= 0xff) by (bit_vector)
        requires
            second == (material >> 8) & 0xff,
    ;
    let k1: u8 = (low as u8) ^ KEY_DERIVATION_CONSTANT_1;
    let k2: u8 = (second as u8).wrapping_add(KEY_DERIVATION_CONSTANT_2);
    (k1, k2)
}

/// Eight bytes of `source` from `start` on, packed most significant first.
pub open spec fn packed_bytes(source: Seq<u8>, start: int) -> u64 {
    ((source[start] as u64) << 56) ^ ((source[start + 1] as u64) << 48) ^ ((source[start
        + 2] as u64) << 40) ^ ((source[start + 3] as u64) << 32) ^ ((source[start + 4] as u64)
        << 24) ^ ((source[start + 5] as u64) << 16) ^ ((source[start + 6] as u64) << 8) ^ (
    source[start + 7] as u64)
}

/// Eight rounds bring the accumulator back into position: they XOR one
/// packed group of secret bytes and one of nonce bytes into it.
proof fn lemma_eight_rounds(secret: Seq<u8>, nonce: Seq<u8>, group: int)
    requires
        secret.len() == 32,
        nonce.len() == 16,
        0 <= group < 4,
    ensures
        key_material(secret, nonce, (8 * group + 8) as nat) == key_material(
            secret,
            nonce,
            (8 * group) as nat,
        ) ^ packed_bytes(secret, 8 * group) ^ packed_bytes(nonce, 8 * (group % 2)),
{
    let base: int = 8 * group;
    let low: int = 8 * (group % 2);
    let m0 = key_material(secret, nonce, base as nat);
    let m1 = key_material(secret, nonce, (base + 1) as nat);
    let m2 = key_material(secret, nonce, (base + 2) as nat);
    let m3 = key_material(secret, nonce, (base + 3) as nat);
    let m4 = key_material(secret, nonce, (base + 4) as nat);
    let m5 = key_material(secret, nonce, (base + 5) as nat);
    let m6 = key_material(secret, nonce, (base + 6) as nat);
    let m7 = key_material(secret, nonce, (base + 7) as nat);
    let m8 = key_material(secret, nonce, (base + 8) as nat);
    assert forall|i: int| 0 <= i < 8 implies #[trigger] source_byte(secret, base + i)
        == secret[base + i] && #[trigger] source_byte(nonce, base + i) == nonce[low + i] by {
        assert((base + i) % 32 == base + i);
        assert((base + i) % 16 == low + i);
    }
    let s0: u8 = secret[base];
    let s1: u8 = secret[base + 1];
    let s2: u8 = secret[base + 2];
    let s3: u8 = secret[base + 3];
    let s4: u8 = secret[base + 4];
    let s5: u8 = secret[base + 5];
    let s6: u8 = secret[base + 6];
    let s7: u8 = secret[base + 7];
    let n0: u8 = nonce[low];
    let n1: u8 = nonce[low + 1];
    let n2: u8 = nonce[low + 2];
    let n3: u8 = nonce[low + 3];
    let n4: u8 = nonce[low + 4];
    let n5: u8 = nonce[low + 5];
    let n6: u8 = nonce[low + 6];
    let n7: u8 = nonce[low + 7];
    assert(m1 == rotate_left_8_spec(m0) ^ ((s0 ^ n0) as u64)) by {
        assert(source_byte(secret, base + 0) == s0 && source_byte(nonce, base + 0) == n0);
    }
    assert(m2 == rotate_left_8_spec(m1) ^ ((s1 ^ n1) as u64)) by {
        assert(source_byte(secret, base + 1) == s1 && source_byte(nonce, base + 1) == n1);
    }
    assert(m3 == rotate_left_8_spec(m2) ^ ((s2 ^ n2) as u64)) by {
        assert(source_byte(secret, base + 2) == s2 && source_byte(nonce, base + 2) == n2);
    }
    assert(m4 == rotate_left_8_spec(m3) ^ ((s3 ^ n3) as u64)) by {
        assert(source_byte(secret, base + 3) == s3 && source_byte(nonce, base + 3) == n3);
    }
    assert(m5 == rotate_left_8_spec(m4) ^ ((s4 ^ n4) as u64)) by {
        assert(source_byte(secret, base + 4) == s4 && source_byte(nonce, base + 4) == n4);
    }
    assert(m6 == rotate_left_8_spec(m5) ^ ((s5 ^ n5) as u64)) by {
        assert(source_byte(secret, base + 5) == s5 && source_byte(nonce, base + 5) == n5);
    }
    assert(m7 == rotate_left_8_spec(m6) ^ ((s6 ^ n6) as u64)) by {
        assert(source_byte(secret, base + 6) == s6 && source_byte(nonce, base + 6) == n6);
    }
    assert(m8 == rotate_left_8_spec(m7) ^ ((s7 ^ n7) as u64)) by {
        assert(source_byte(secret, base + 7) == s7 && source_byte(nonce, base + 7) == n7);
    }
    let ps = packed_bytes(secret, base);
    let pn = packed_bytes(nonce, low);
    assert(m8 == m0 ^ ps ^ pn) by (bit_vector)
        requires
            m1 == ((m0 << 8) | (m0 >> 56)) ^ ((s0 ^ n0) as u64),
            m2 == ((m1 << 8) | (m1 >> 56)) ^ ((s1 ^ n1) as u64),
            m3 == ((m2 << 8) | (m2 >> 56)) ^ ((s2 ^ n2) as u64),
            m4 == ((m3 << 8) | (m3 >> 56)) ^ ((s3 ^ n3) as u64),
            m5 == ((m4 << 8) | (m4 >> 56)) ^ ((s4 ^ n4) as u64),
            m6 == ((m5 << 8) | (m5 >> 56)) ^ ((s5 ^ n5) as u64),
            m7 == ((m6 << 8) | (m6 >> 56)) ^ ((s6 ^ n6) as u64),
            m8 == ((m7 << 8) | (m7 >> 56)) ^ ((s7 ^ n7) as u64),
            ps == ((s0 as u64) << 56) ^ ((s1 as u64) << 48) ^ ((s2 as u64) << 40) ^ ((s3 as u64)
                << 32) ^ ((s4 as u64) << 24) ^ ((s5 as u64) << 16) ^ ((s6 as u64) << 8) ^ (
            s7 as u64),
            pn == ((n0 as u64) << 56) ^ ((n1 as u64) << 48) ^ ((n2 as u64) << 40) ^ ((n3 as u64)
                << 32) ^ ((n4 as u64) << 24) ^ ((n5 as u64) << 16) ^ ((n6 as u64) << 8) ^ (
            n7 as u64),
    ;
}

/// With a secret of 32 bytes, a nonce of 16 bytes leaves no trace in the
/// keys: each of its bytes is folded into the same place of the accumulator
/// twice and cancels. All such nonces derive the same pair.
pub proof fn lemma_full_size_nonce_cancels(secret: Seq<u8>, nonce_a: Seq<u8>, nonce_b: Seq<u8>)
    requires
        secret.len() == 32,
        nonce_a.len() == 16,
        nonce_b.len() == 16,
    ensures
        derive_keys_spec(secret, nonce_a) == derive_keys_spec(secret, nonce_b),
{
    lemma_material_without_nonce(secret, nonce_a);
    lemma_material_without_nonce(secret, nonce_b);
}

/// After all 32 rounds the accumulator is the XOR of the four packed groups
/// of secret bytes, whatever the 16-byte nonce.
proof fn lemma_material_without_nonce(secret: Seq<u8>, nonce: Seq<u8>)
    requires
        secret.len() == 32,
        nonce.len() == 16,
    ensures
        key_material(secret, nonce, 32) == packed_bytes(secret, 0) ^ packed_bytes(secret, 8)
            ^ packed_bytes(secret, 16) ^ packed_bytes(secret, 24),
{
    lemma_eight_rounds(secret, nonce, 0);
    lemma_eight_rounds(secret, nonce, 1);
    lemma_eight_rounds(secret, nonce, 2);
    lemma_eight_rounds(secret, nonce, 3);
    let m0 = key_material(secret, nonce, 0);
    let m8 = key_material(secret, nonce, 8);
    let m16 = key_material(secret, nonce, 16);
    let m24 = key_material(secret, nonce, 24);
    let m32 = key_material(secret, nonce, 32);
    let a = packed_bytes(secret, 0);
    let b = packed_bytes(secret, 8);
    let c = packed_bytes(secret, 16);
    let d = packed_bytes(secret, 24);
    let p = packed_bytes(nonce, 0);
    let q = packed_bytes(nonce, 8);
    assert(m0 == 0);
    assert(m32 == a ^ b ^ c ^ d) by (bit_vector)
        requires
            m0 == 0,
            m8 == m0 ^ a ^ p,
            m16 == m8 ^ b ^ q,
            m24 == m16 ^ c ^ p,
            m32 == m24 ^ d ^ q,
    ;
}

} // verus!
