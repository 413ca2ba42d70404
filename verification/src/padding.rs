//! Length-prefixed padding to whole blocks, and its removal.
//!
//! A padded buffer is an 8-byte big-endian payload length, the payload, and
//! filler drawn from the generator until the total is a multiple of the
//! block size. The filler is noise: nothing ever reads it back.

use vstd::prelude::*;
use crate::constants::{BLOCK_SIZE, LENGTH_PREFIX_SIZE};
use crate::error::CryptoError;
use crate::lcg::{lcg_output, lcg_state_after, lcg_stream, Lcg};

verus! {

/// The eight bytes of `n`, most significant first.
pub open spec fn be_bytes(n: u64) -> Seq<u8> {
    seq![
        ((n >> 56) & 0xff) as u8,
        ((n >> 48) & 0xff) as u8,
        ((n >> 40) & 0xff) as u8,
        ((n >> 32) & 0xff) as u8,
        ((n >> 24) & 0xff) as u8,
        ((n >> 16) & 0xff) as u8,
        ((n >> 8) & 0xff) as u8,
        (n & 0xff) as u8,
    ]
}

/// The number that the first eight bytes of `s` spell, most significant
/// first.
pub open spec fn be_value(s: Seq<u8>) -> u64
    recommends
        s.len() >= 8,
{
    ((s[0] as u64) << 56) | ((s[1] as u64) << 48) | ((s[2] as u64) << 40) | ((s[3] as u64) << 32)
        | ((s[4] as u64) << 24) | ((s[5] as u64) << 16) | ((s[6] as u64) << 8) | (s[7] as u64)
}

/// Number of filler bytes behind a payload of `len` bytes: the least number
/// that brings prefix, payload and filler to a multiple of the block size.
pub open spec fn filler_len(len: nat) -> nat {
    ((BLOCK_SIZE as int - ((LENGTH_PREFIX_SIZE as int + len as int) % (BLOCK_SIZE as int))) % (
    BLOCK_SIZE as int)) as nat
}

/// Total length of the padded form of a payload of `len` bytes.
pub open spec fn padded_len(len: nat) -> nat {
    LENGTH_PREFIX_SIZE as nat + len + filler_len(len)
}

/// The padded form of `payload`, with filler from the generator seeded
/// with `k2`.
pub open spec fn add_padding_spec(payload: Seq<u8>, k2: u8) -> Seq<u8> {
    be_bytes(payload.len() as u64) + payload + lcg_stream(k2, filler_len(payload.len()))
}

/// What removing the padding of `padded` gives: the declared payload, or
/// the first structural fault found.
pub open spec fn remove_padding_spec(padded: Seq<u8>) -> Result<Seq<u8>, CryptoError> {
    if padded.len() < LENGTH_PREFIX_SIZE {
        Err(CryptoError::MalformedLength)
    } else if padded.len() % (BLOCK_SIZE as nat) != 0 {
        Err(CryptoError::BadBlockAlignment)
    } else if LENGTH_PREFIX_SIZE + be_value(padded) > padded.len() {
        Err(CryptoError::LengthOverflow)
    } else {
        Ok(padded.subrange(LENGTH_PREFIX_SIZE as int, LENGTH_PREFIX_SIZE + be_value(padded)))
    }
}

/// The filler is shorter than a block and brings the total to a whole
/// number of blocks.
pub proof fn lemma_padded_len_aligned(len: nat)
    ensures
        filler_len(len) < BLOCK_SIZE,
        padded_len(len) % (BLOCK_SIZE as nat) == 0,
        padded_len(len) == 8 + len + ((16 - (8 + len) % 16) % 16),
{
}

/// Reading back an encoded length gives the length.
pub proof fn lemma_be_round_trip(n: u64)
    ensures
        be_bytes(n).len() == 8,
        be_value(be_bytes(n)) == n,
{
    let b0: u64 = (n >> 56) & 0xff;
    let b1: u64 = (n >> 48) & 0xff;
    let b2: u64 = (n >> 40) & 0xff;
    let b3: u64 = (n >> 32) & 0xff;
    let b4: u64 = (n >> 24) & 0xff;
    let b5: u64 = (n >> 16) & 0xff;
    let b6: u64 = (n >> 8) & 0xff;
    let b7: u64 = n & 0xff;
    assert(b0 <= 0xff && b1 <= 0xff && b2 <= 0xff && b3 <= 0xff && b4 <= 0xff && b5 <= 0xff && b6
        <= 0xff && b7 <= 0xff && ((b0 << 56) | (b1 << 48) | (b2 << 40) | (b3 << 32) | (b4 << 24) | (
    b5 << 16) | (b6 << 8) | b7) == n) by (bit_vector)
        requires
            b0 == (n >> 56) & 0xff,
            b1 == (n >> 48) & 0xff,
            b2 == (n >> 40) & 0xff,
            b3 == (n >> 32) & 0xff,
            b4 == (n >> 24) & 0xff,
            b5 == (n >> 16) & 0xff,
            b6 == (n >> 8) & 0xff,
            b7 == n & 0xff,
    ;
    let s = be_bytes(n);
    assert(s[0] as u64 == b0);
    assert(s[1] as u64 == b1);
    assert(s[2] as u64 == b2);
    assert(s[3] as u64 == b3);
    assert(s[4] as u64 == b4);
    assert(s[5] as u64 == b5);
    assert(s[6] as u64 == b6);
    assert(s[7] as u64 == b7);
}

/// The encoding is positional with base 256: the first byte weighs most.
pub proof fn lemma_be_value_is_positional(s: Seq<u8>)
    requires
        s.len() >= 8,
    ensures
        be_value(s) == s[0] * 0x100_0000_0000_0000 + s[1] * 0x1_0000_0000_0000 + s[2]
            * 0x100_0000_0000 + s[3] * 0x1_0000_0000 + s[4] * 0x100_0000 + s[5] * 0x1_0000 + s[6]
            * 0x100 + s[7],
{
    let b0: u64 = s[0] as u64;
    let b1: u64 = s[1] as u64;
    let b2: u64 = s[2] as u64;
    let b3: u64 = s[3] as u64;
    let b4: u64 = s[4] as u64;
    let b5: u64 = s[5] as u64;
    let b6: u64 = s[6] as u64;
    let b7: u64 = s[7] as u64;
    assert(((b0 << 56) | (b1 << 48) | (b2 << 40) | (b3 << 32) | (b4 << 24) | (b5 << 16) | (b6 << 8)
        | b7) == b0 * 0x100_0000_0000_0000 + b1 * 0x1_0000_0000_0000 + b2 * 0x100_0000_0000 + b3
        * 0x1_0000_0000 + b4 * 0x100_0000 + b5 * 0x1_0000 + b6 * 0x100 + b7) by (bit_vector)
        requires
            b0 <= 0xff,
            b1 <= 0xff,
            b2 <= 0xff,
            b3 <= 0xff,
            b4 <= 0xff,
            b5 <= 0xff,
            b6 <= 0xff,
            b7 <= 0xff,
    ;
}

/// Removing the padding of a padded payload gives the payload back,
/// whatever byte seeded the filler.
pub proof fn lemma_padding_round_trip(payload: Seq<u8>, k2: u8)
    requires
        payload.len() <= u64::MAX,
    ensures
        remove_padding_spec(add_padding_spec(payload, k2)) == Ok::<Seq<u8>, CryptoError>(payload),
{
    let n: u64 = payload.len() as u64;
    let padded = add_padding_spec(payload, k2);
    lemma_be_round_trip(n);
    lemma_padded_len_aligned(payload.len());
    assert(padded.len() == padded_len(payload.len()));
    assert(forall|i: int| 0 <= i < 8 ==> padded[i] == be_bytes(n)[i]);
    assert(be_value(padded) == be_value(be_bytes(n)));
    assert(padded.subrange(8, 8 + n) =~= payload);
}

/// The eight bytes of `n`, most significant first.
fn encode_length(n: u64) -> (bytes: Vec<u8>)
    ensures
        bytes@ == be_bytes(n),
{
    let mut bytes: Vec<u8> = Vec::new();
    let b0: u64 = (n >> 56) & 0xff;
    let b1: u64 = (n >> 48) & 0xff;
    let b2: u64 = (n >> 40) & 0xff;
    let b3: u64 = (n >> 32) & 0xff;
    let b4: u64 = (n >> 24) & 0xff;
    let b5: u64 = (n >> 16) & 0xff;
    let b6: u64 = (n >> 8) & 0xff;
    let b7: u64 = n & 0xff;
    assert(b0 <= 0xff && b1 <= 0xff && b2 <= 0xff && b3 <= 0xff && b4 <= 0xff && b5 <= 0xff && b6
        <= 0xff && b7 <= 0xff) by (bit_vector)
        requires
            b0 == (n >> 56) & 0xff,
            b1 == (n >> 48) & 0xff,
            b2 == (n >> 40) & 0xff,
            b3 == (n >> 32) & 0xff,
            b4 == (n >> 24) & 0xff,
            b5 == (n >> 16) & 0xff,
            b6 == (n >> 8) & 0xff,
            b7 == n & 0xff,
    ;
    bytes.push(b0 as u8);
    bytes.push(b1 as u8);
    bytes.push(b2 as u8);
    bytes.push(b3 as u8);
    bytes.push(b4 as u8);
    bytes.push(b5 as u8);
    bytes.push(b6 as u8);
    bytes.push(b7 as u8);
    assert(bytes@ =~= be_bytes(n));
    bytes
}

/// The number that the first eight bytes of `data` spell.
fn decode_length(data: &[u8]) -> (n: u64)
    requires
        data@.len() >= 8,
    ensures
        n == be_value(data@),
{
    ((data[0] as u64) << 56) | ((data[1] as u64) << 48) | ((data[2] as u64) << 40) | ((
    data[3] as u64) << 32) | ((data[4] as u64) << 24) | ((data[5] as u64) << 16) | ((
    data[6] as u64) << 8) | (data[7] as u64)
}

/// A copy of the bytes of `data` from `start` up to `end`.
fn copy_range(data: &[u8], start: usize, end: usize) -> (out: Vec<u8>)
    requires
        start <= end <= data@.len(),
    ensures
        out@ == data@.subrange(start as int, end as int),
{
    let mut out: Vec<u8> = Vec::new();
    let mut i: usize = start;
    while i < end
        invariant
            start <= i <= end,
            end <= data@.len(),
            out@ == data@.subrange(start as int, i as int),
        decreases end - i,
    {
        out.push(data[i]);
        assert(out@ =~= data@.subrange(start as int, i + 1));
        i += 1;
    }
    out
}

/// Number of filler bytes behind a payload of `len` bytes.
fn filler_count(len: usize) -> (count: usize)
    ensures
        count == filler_len(len as nat),
{
    let past_block: usize = (len % BLOCK_SIZE + LENGTH_PREFIX_SIZE) % BLOCK_SIZE;
    (BLOCK_SIZE - past_block) % BLOCK_SIZE
}

/// Appends the first `count` bytes of the generator seeded with `k2`.
fn append_filler(buffer: &mut Vec<u8>, k2: u8, count: usize)
    ensures
        final(buffer)@ == old(buffer)@ + lcg_stream(k2, count as nat),
{
    let mut lcg = Lcg::new(k2);
    let mut i: usize = 0;
    assert(buffer@ =~= old(buffer)@ + lcg_stream(k2, 0));
    while i < count
        invariant
            i <= count,
            lcg.state() == lcg_state_after(k2, i as nat),
            buffer@ == old(buffer)@ + lcg_stream(k2, i as nat),
        decreases count - i,
    {
        let b: u8 = lcg.next();
        buffer.push(b);
        assert(lcg.state() == lcg_state_after(k2, (i + 1) as nat));
        assert(buffer@ =~= old(buffer)@ + lcg_stream(k2, (i + 1) as nat));
        i += 1;
    }
}

/// Pads a payload: its length as eight big-endian bytes, the payload, then
/// filler from the generator seeded with `k2` up to the next multiple of
/// the block size. Removing the padding gives the payload back.
pub fn add_padding(data: &[u8], k2: u8) -> (padded: Vec<u8>)
    ensures
        padded@ == add_padding_spec(data@, k2),
        padded@.len() == padded_len(data@.len()),
        padded@.len() % (BLOCK_SIZE as nat) == 0,
        remove_padding_spec(padded@) == Ok::<Seq<u8>, CryptoError>(data@),
{
    let payload_len: usize = data.len();
    let padding_len: usize = filler_count(payload_len);
    let mut padded: Vec<u8> = encode_length(payload_len as u64);
    padded.extend_from_slice(data);
    append_filler(&mut padded, k2, padding_len);
    assert(padded@ == add_padding_spec(data@, k2));
    assert(padded@.len() == padded_len(data@.len()) && padded@.len() % (BLOCK_SIZE as nat) == 0)
        by {
        lemma_padded_len_aligned(data@.len());
    }
    assert(remove_padding_spec(padded@) == Ok::<Seq<u8>, CryptoError>(data@)) by {
        lemma_padding_round_trip(data@, k2);
    }
    padded
}

/// Strips prefix and filler from a padded buffer and returns the payload
/// that the prefix declares. Fails with `MalformedLength` on fewer than
/// eight bytes, else with `BadBlockAlignment` on a length that is no
/// multiple of the block size, else with `LengthOverflow` where the
/// declared length reaches past the end.
pub fn remove_padding(padded_data: &[u8]) -> (result: Result<Vec<u8>, CryptoError>)
    ensures
        match result {
            Ok(payload) => remove_padding_spec(padded_data@) == Ok::<Seq<u8>, CryptoError>(
                payload@,
            ),
            Err(e) => remove_padding_spec(padded_data@) == Err::<Seq<u8>, CryptoError>(e),
        },
{
    if padded_data.len() < LENGTH_PREFIX_SIZE {
        return Err(CryptoError::MalformedLength);
    }
    if padded_data.len() % BLOCK_SIZE != 0 {
        return Err(CryptoError::BadBlockAlignment);
    }
    let payload_len: u64 = decode_length(padded_data);
    let room: usize = padded_data.len() - LENGTH_PREFIX_SIZE;
    if payload_len > room as u64 {
        return Err(CryptoError::LengthOverflow);
    }
    let expected_end: usize = LENGTH_PREFIX_SIZE + payload_len as usize;
    Ok(copy_range(padded_data, LENGTH_PREFIX_SIZE, expected_end))
}

} // verus!
