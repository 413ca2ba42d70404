//! The pipeline: key derivation, padding and the three layers in their
//! fixed order, and the exact mirror of it.
//!
//! Encryption applies XOR, then substitution, then permutation; decryption
//! undoes them in the opposite order. Nothing authenticates a ciphertext:
//! wrong keys or damaged bytes mostly decode to garbage without any error.

use vstd::prelude::*;
use crate::constants::{pre_shared_secret, pre_shared_secret_spec, BLOCK_SIZE, NONCE_SIZE};
use crate::error::CryptoError;
use crate::keys::{derive_keys, derive_keys_spec, lemma_full_size_nonce_cancels};
use crate::lcg::lcg_stream;
use crate::padding::{
    add_padding, add_padding_spec, be_bytes, filler_len, lemma_padded_len_aligned,
    lemma_padding_round_trip, padded_len, remove_padding, remove_padding_spec,
};
use crate::permute::{
    inverse_permute_blocks, inverse_permute_spec, lemma_permute_round_trip, permute_blocks,
    permute_spec,
};
use crate::sbox::{
    inverse_substitute, inverse_table_of, is_permutation_table, lemma_substitute_round_trip,
    standard_table, substitute, substitute_spec, SBox,
};
use crate::xor::{lemma_xor_involution, xor_spec, xor_with_key};

verus! {

/// The three layers in encryption order: XOR with `k1`, substitution by
/// `forward`, permutation of the blocks.
pub open spec fn encrypt_layers(forward: Seq<u8>, padded: Seq<u8>, k1: u8) -> Seq<u8> {
    permute_spec(substitute_spec(xor_spec(padded, k1), forward))
}

/// The three layers undone, in the opposite order.
pub open spec fn decrypt_layers(forward: Seq<u8>, data: Seq<u8>, k1: u8) -> Seq<u8> {
    xor_spec(substitute_spec(inverse_permute_spec(data), inverse_table_of(forward)), k1)
}

/// The ciphertext of `payload` under `nonce`, with substitution by
/// `forward` and keys derived from `secret`.
pub open spec fn encrypt_spec(
    forward: Seq<u8>,
    secret: Seq<u8>,
    payload: Seq<u8>,
    nonce: Seq<u8>,
) -> Seq<u8> {
    let keys = derive_keys_spec(secret, nonce);
    encrypt_layers(forward, add_padding_spec(payload, keys.1), keys.0)
}

/// What decrypting `data` under `nonce` gives: the payload, or the first
/// fault found. The checks on the two lengths come first, in that order.
pub open spec fn decrypt_spec(
    forward: Seq<u8>,
    secret: Seq<u8>,
    data: Seq<u8>,
    nonce: Seq<u8>,
) -> Result<Seq<u8>, CryptoError> {
    if data.len() % (BLOCK_SIZE as nat) != 0 {
        Err(CryptoError::InvalidLength)
    } else if nonce.len() != NONCE_SIZE {
        Err(CryptoError::InvalidNonceLength)
    } else {
        remove_padding_spec(decrypt_layers(forward, data, derive_keys_spec(secret, nonce).0))
    }
}

/// Fills the buffer with bytes from `rand::thread_rng()`, through
/// `rand::RngCore::fill_bytes`.
///
/// Taken on trust: the call returns and the buffer keeps its length.
/// Nothing is said of the bytes, which differ from call to call.
#[verifier::external_body]
fn fill_random(buffer: &mut Vec<u8>)
    ensures
        final(buffer)@.len() == old(buffer)@.len(),
{
    rand::RngCore::fill_bytes(&mut rand::thread_rng(), buffer.as_mut_slice());
}

/// A fresh nonce of the fixed size.
pub fn generate_nonce() -> (nonce: Vec<u8>)
    ensures
        nonce@.len() == NONCE_SIZE,
{
    let mut nonce: Vec<u8> = vec![0u8; NONCE_SIZE];
    fill_random(&mut nonce);
    nonce
}

/// Encrypts `data` under a nonce and a substitution box that the caller
/// supplies, with keys derived from the pre-shared secret.
pub fn encrypt_with_table(sbox: &SBox, data: &[u8], nonce: &[u8]) -> (encrypted: Vec<u8>)
    requires
        sbox.wf(),
    ensures
        encrypted@ == encrypt_spec(
            sbox.forward_table(),
            pre_shared_secret_spec(),
            data@,
            nonce@,
        ),
        encrypted@.len() == padded_len(data@.len()),
        encrypted@.len() % (BLOCK_SIZE as nat) == 0,
        nonce@.len() == NONCE_SIZE ==> decrypt_spec(
            sbox.forward_table(),
            pre_shared_secret_spec(),
            encrypted@,
            nonce@,
        ) == Ok::<Seq<u8>, CryptoError>(data@),
{
    let secret = pre_shared_secret();
    let (k1, k2) = derive_keys(secret.as_slice(), nonce);
    let mut padded_data: Vec<u8> = add_padding(data, k2);
    let ghost padded = padded_data@;
    xor_with_key(padded_data.as_mut_slice(), k1);
    substitute(padded_data.as_mut_slice(), sbox);
    permute_blocks(padded_data.as_mut_slice());
    proof {
        lemma_layers_round_trip(sbox.forward_table(), padded, k1);
    }
    padded_data
}

/// Decrypts `encrypted_data` under a nonce and a substitution box that the
/// caller supplies. Fails with `InvalidLength` where the data is no whole
/// number of blocks, else with `InvalidNonceLength` where the nonce has not
/// the fixed size, else as the removal of the padding fails.
pub fn decrypt_with_table(sbox: &SBox, encrypted_data: &[u8], nonce: &[u8]) -> (result: Result<
    Vec<u8>,
    CryptoError,
>)
    requires
        sbox.wf(),
    ensures
        match result {
            Ok(payload) => decrypt_spec(
                sbox.forward_table(),
                pre_shared_secret_spec(),
                encrypted_data@,
                nonce@,
            ) == Ok::<Seq<u8>, CryptoError>(payload@),
            Err(e) => decrypt_spec(
                sbox.forward_table(),
                pre_shared_secret_spec(),
                encrypted_data@,
                nonce@,
            ) == Err::<Seq<u8>, CryptoError>(e),
        },
{
    if encrypted_data.len() % BLOCK_SIZE != 0 {
        return Err(CryptoError::InvalidLength);
    }
    if nonce.len() != NONCE_SIZE {
        return Err(CryptoError::InvalidNonceLength);
    }
    let secret = pre_shared_secret();
    let (k1, _k2) = derive_keys(secret.as_slice(), nonce);
    let mut data: Vec<u8> = Vec::new();
    data.extend_from_slice(encrypted_data);
    assert(data@ =~= encrypted_data@);
    inverse_permute_blocks(data.as_mut_slice());
    inverse_substitute(data.as_mut_slice(), sbox);
    xor_with_key(data.as_mut_slice(), k1);
    remove_padding(data.as_slice())
}

/// Encrypts `data` under a nonce that the caller supplies, with the
/// standard substitution box.
pub fn encrypt_with_nonce(data: &[u8], nonce: &[u8]) -> (encrypted: Vec<u8>)
    ensures
        encrypted@ == encrypt_spec(standard_table(), pre_shared_secret_spec(), data@, nonce@),
        encrypted@.len() == padded_len(data@.len()),
        encrypted@.len() % (BLOCK_SIZE as nat) == 0,
        nonce@.len() == NONCE_SIZE ==> decrypt_spec(
            standard_table(),
            pre_shared_secret_spec(),
            encrypted@,
            nonce@,
        ) == Ok::<Seq<u8>, CryptoError>(data@),
{
    let sbox = SBox::standard();
    encrypt_with_table(&sbox, data, nonce)
}

/// Encrypts `data` under a fresh random nonce and returns the ciphertext
/// with that nonce. The two must travel together: the receiver rebuilds the
/// keys from the nonce.
pub fn encrypt(data: &[u8]) -> (out: (Vec<u8>, Vec<u8>))
    ensures
        out.1@.len() == NONCE_SIZE,
        out.0@ == encrypt_spec(standard_table(), pre_shared_secret_spec(), data@, out.1@),
        out.0@.len() == padded_len(data@.len()),
        out.0@.len() % (BLOCK_SIZE as nat) == 0,
        decrypt_spec(standard_table(), pre_shared_secret_spec(), out.0@, out.1@) == Ok::<
            Seq<u8>,
            CryptoError,
        >(data@),
{
    let nonce = generate_nonce();
    let encrypted = encrypt_with_nonce(data, nonce.as_slice());
    (encrypted, nonce)
}

/// Decrypts `encrypted_data` under `nonce` with the standard substitution
/// box. Success says nothing about where the bytes came from or whether
/// they are the ones that were sent.
pub fn decrypt(encrypted_data: &[u8], nonce: &[u8]) -> (result: Result<Vec<u8>, CryptoError>)
    ensures
        match result {
            Ok(payload) => decrypt_spec(
                standard_table(),
                pre_shared_secret_spec(),
                encrypted_data@,
                nonce@,
            ) == Ok::<Seq<u8>, CryptoError>(payload@),
            Err(e) => decrypt_spec(
                standard_table(),
                pre_shared_secret_spec(),
                encrypted_data@,
                nonce@,
            ) == Err::<Seq<u8>, CryptoError>(e),
        },
        encrypted_data@.len() % (BLOCK_SIZE as nat) != 0 ==> result == Err::<
            Vec<u8>,
            CryptoError,
        >(CryptoError::InvalidLength),
        encrypted_data@.len() % (BLOCK_SIZE as nat) == 0 && nonce@.len() != NONCE_SIZE ==> result
            == Err::<Vec<u8>, CryptoError>(CryptoError::InvalidNonceLength),
{
    let sbox = SBox::standard();
    decrypt_with_table(&sbox, encrypted_data, nonce)
}

/// The layers of decryption undo the layers of encryption on any buffer,
/// under any key byte.
pub proof fn lemma_layers_round_trip(forward: Seq<u8>, padded: Seq<u8>, k1: u8)
    requires
        is_permutation_table(forward),
    ensures
        decrypt_layers(forward, encrypt_layers(forward, padded, k1), k1) == padded,
        encrypt_layers(forward, padded, k1).len() == padded.len(),
{
    let xored = xor_spec(padded, k1);
    let substituted = substitute_spec(xored, forward);
    lemma_permute_round_trip(substituted);
    lemma_substitute_round_trip(forward, xored);
    lemma_xor_involution(padded, k1);
}

/// Decrypting what was encrypted under the same nonce gives the payload
/// back, for every payload, the empty one too, every nonce of the fixed
/// size, every secret and every permutation table.
pub proof fn lemma_round_trip(
    forward: Seq<u8>,
    secret: Seq<u8>,
    payload: Seq<u8>,
    nonce: Seq<u8>,
)
    requires
        is_permutation_table(forward),
        nonce.len() == NONCE_SIZE,
        payload.len() <= u64::MAX,
    ensures
        decrypt_spec(forward, secret, encrypt_spec(forward, secret, payload, nonce), nonce) == Ok::<
            Seq<u8>,
            CryptoError,
        >(payload),
{
    let keys = derive_keys_spec(secret, nonce);
    let padded = add_padding_spec(payload, keys.1);
    lemma_padded_len_aligned(payload.len());
    lemma_layers_round_trip(forward, padded, keys.0);
    lemma_padding_round_trip(payload, keys.1);
}

/// How far the nonce reaches: two nonces give the same ciphertext of one
/// payload exactly when they derive the same first key byte and the same
/// filler. In particular, nonces whose first key bytes differ always give
/// different ciphertexts.
pub proof fn lemma_nonce_sensitivity(
    forward: Seq<u8>,
    secret: Seq<u8>,
    payload: Seq<u8>,
    nonce_a: Seq<u8>,
    nonce_b: Seq<u8>,
)
    requires
        is_permutation_table(forward),
    ensures
        encrypt_spec(forward, secret, payload, nonce_a) == encrypt_spec(
            forward,
            secret,
            payload,
            nonce_b,
        ) <==> {
            &&& derive_keys_spec(secret, nonce_a).0 == derive_keys_spec(secret, nonce_b).0
            &&& lcg_stream(derive_keys_spec(secret, nonce_a).1, filler_len(payload.len()))
                == lcg_stream(derive_keys_spec(secret, nonce_b).1, filler_len(payload.len()))
        },
{
    let keys_a = derive_keys_spec(secret, nonce_a);
    let keys_b = derive_keys_spec(secret, nonce_b);
    let padded_a = add_padding_spec(payload, keys_a.1);
    let padded_b = add_padding_spec(payload, keys_b.1);
    let head = be_bytes(payload.len() as u64) + payload;
    let filler_a = lcg_stream(keys_a.1, filler_len(payload.len()));
    let filler_b = lcg_stream(keys_b.1, filler_len(payload.len()));
    if encrypt_spec(forward, secret, payload, nonce_a) == encrypt_spec(
        forward,
        secret,
        payload,
        nonce_b,
    ) {
        let xored_a = xor_spec(padded_a, keys_a.0);
        let xored_b = xor_spec(padded_b, keys_b.0);
        lemma_permute_round_trip(substitute_spec(xored_a, forward));
        lemma_permute_round_trip(substitute_spec(xored_b, forward));
        lemma_substitute_round_trip(forward, xored_a);
        lemma_substitute_round_trip(forward, xored_b);
        assert(xored_a == xored_b);
        assert(padded_a[0] == head[0]);
        assert(padded_b[0] == head[0]);
        let first: u8 = head[0];
        let ka: u8 = keys_a.0;
        let kb: u8 = keys_b.0;
        assert(xored_a[0] == first ^ ka);
        assert(xored_b[0] == first ^ kb);
        assert(first ^ ka == first ^ kb ==> ka == kb) by (bit_vector);
        lemma_xor_involution(padded_a, ka);
        lemma_xor_involution(padded_b, kb);
        assert(padded_a == padded_b);
        assert(filler_a =~= padded_a.subrange(head.len() as int, padded_a.len() as int));
        assert(filler_b =~= padded_b.subrange(head.len() as int, padded_b.len() as int));
    }
}

/// Under the pre-shared secret, which has 32 bytes, every nonce of the
/// fixed size gives the same ciphertext of one payload: such nonces cancel
/// out of the key derivation.
pub proof fn lemma_fixed_size_nonces_agree(
    forward: Seq<u8>,
    payload: Seq<u8>,
    nonce_a: Seq<u8>,
    nonce_b: Seq<u8>,
)
    requires
        nonce_a.len() == NONCE_SIZE,
        nonce_b.len() == NONCE_SIZE,
    ensures
        encrypt_spec(forward, pre_shared_secret_spec(), payload, nonce_a) == encrypt_spec(
            forward,
            pre_shared_secret_spec(),
            payload,
            nonce_b,
        ),
{
    lemma_full_size_nonce_cancels(pre_shared_secret_spec(), nonce_a, nonce_b);
}

} // verus!
