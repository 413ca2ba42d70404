//! Parameters that both ends of a channel must agree on.

use vstd::prelude::*;

verus! {

/// Size in bytes of the blocks that padded data is made of.
pub const BLOCK_SIZE: usize = 16;

/// Size in bytes of the nonce that travels with each ciphertext.
pub const NONCE_SIZE: usize = 16;

/// Size in bytes of the big-endian length that precedes a padded payload.
pub const LENGTH_PREFIX_SIZE: usize = 8;

/// Mixed into the first derived byte by XOR.
pub const KEY_DERIVATION_CONSTANT_1: u8 = 0xAB;

/// Mixed into the second derived byte by wrapping addition.
pub const KEY_DERIVATION_CONSTANT_2: u8 = 0xCD;

/// Multiplier of the linear congruential generator.
pub const LCG_A: u64 = 1664525;

/// Increment of the linear congruential generator.
pub const LCG_C: u64 = 1013904223;

/// Seed of the shuffle that produces the substitution table.
pub const SBOX_SEED: u64 = LCG_A ^ LCG_C;

/// The pre-shared secret as a sequence: the ASCII text
/// `this_is_a_very_secret_key_1234` followed by two zero bytes.
pub open spec fn pre_shared_secret_spec() -> Seq<u8> {
    seq![
        0x74u8, 0x68u8, 0x69u8, 0x73u8, 0x5fu8, 0x69u8, 0x73u8, 0x5fu8,
        0x61u8, 0x5fu8, 0x76u8, 0x65u8, 0x72u8, 0x79u8, 0x5fu8, 0x73u8,
        0x65u8, 0x63u8, 0x72u8, 0x65u8, 0x74u8, 0x5fu8, 0x6bu8, 0x65u8,
        0x79u8, 0x5fu8, 0x31u8, 0x32u8, 0x33u8, 0x34u8, 0x00u8, 0x00u8,
    ]
}

/// The pre-shared secret. It is never transmitted and must be identical on
/// both ends.
pub fn pre_shared_secret() -> (secret: [u8; 32])
    ensures
        secret@ == pre_shared_secret_spec(),
{
    let secret: [u8; 32] = [
        0x74u8, 0x68u8, 0x69u8, 0x73u8, 0x5fu8, 0x69u8, 0x73u8, 0x5fu8,
        0x61u8, 0x5fu8, 0x76u8, 0x65u8, 0x72u8, 0x79u8, 0x5fu8, 0x73u8,
        0x65u8, 0x63u8, 0x72u8, 0x65u8, 0x74u8, 0x5fu8, 0x6bu8, 0x65u8,
        0x79u8, 0x5fu8, 0x31u8, 0x32u8, 0x33u8, 0x34u8, 0x00u8, 0x00u8,
    ];
    assert(secret@ =~= pre_shared_secret_spec());
    secret
}

} // verus!
