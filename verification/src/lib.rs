//! A deliberately simple keyed transform for byte payloads: key derivation
//! from a pre-shared secret and a per-message nonce, length-prefixed padding
//! to whole blocks, and three reversible layers (stream XOR, byte
//! substitution, intra-block permutation).
//!
//! The construction offers no secrecy worth the name and no integrity at
//! all: a successful `decrypt` says nothing about where the bytes came from.

pub mod constants;
pub mod crypto;
pub mod error;
pub mod keys;
pub mod lcg;
pub mod packet;
pub mod padding;
pub mod permute;
pub mod sbox;
pub mod variants;
pub mod xor;

pub use constants::{
    pre_shared_secret, BLOCK_SIZE, KEY_DERIVATION_CONSTANT_1, KEY_DERIVATION_CONSTANT_2, LCG_A,
    LCG_C, LENGTH_PREFIX_SIZE, NONCE_SIZE, SBOX_SEED,
};
pub use crypto::{
    decrypt, decrypt_with_table, encrypt, encrypt_with_nonce, encrypt_with_table, generate_nonce,
};
pub use error::CryptoError;
pub use keys::derive_keys;
pub use lcg::Lcg;
pub use packet::EncryptedPacket;
pub use padding::{add_padding, remove_padding};
pub use permute::{inverse_permute_blocks, permute_blocks};
pub use sbox::{inverse_substitute, is_permutation, substitute, SBox};
pub use variants::{
    decrypt_data, decrypt_data_rcs, encrypt_data, encrypt_data_rcs, generate_base_key,
    generate_xor_key,
};
pub use xor::xor_with_key;
