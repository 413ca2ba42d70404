//! Two weaker single-layer relatives of the pipeline: a plain stream XOR
//! and a rotating shift, each keyed by one byte taken from a timestamp.

use vstd::prelude::*;
use crate::xor::xor_spec;

verus! {

/// The key byte of a timestamp given in nanoseconds: its value modulo 256,
/// or zero where the timestamp has no such representation.
pub open spec fn timestamp_key_spec(nanos: Option<i64>) -> u8 {
    match nanos {
        Some(n) => (n as int % 256) as u8,
        None => 0u8,
    }
}

/// The shift applied at position `i` under `key`: their sum modulo 256.
pub open spec fn rotating_shift(key: u8, i: int) -> u8 {
    ((key as int + i) % 256) as u8
}

/// Every byte moved up by the shift of its position, modulo 256.
pub open spec fn rotating_shift_spec(data: Seq<u8>, key: u8) -> Seq<u8> {
    Seq::new(data.len(), |i: int| ((data[i] as int + rotating_shift(key, i) as int) % 256) as u8)
}

/// Every byte moved down by the shift of its position, modulo 256.
pub open spec fn rotating_unshift_spec(data: Seq<u8>, key: u8) -> Seq<u8> {
    Seq::new(data.len(), |i: int| ((data[i] as int - rotating_shift(key, i) as int) % 256) as u8)
}

fn timestamp_key(nanos: Option<i64>) -> (key: u8)
    ensures
        key == timestamp_key_spec(nanos),
{
    match nanos {
        None => 0,
        Some(n) => {
            if n >= 0 {
                (n % 256) as u8
            } else {
                let below: i64 = -(n + 1);
                (255 - (below % 256)) as u8
            }
        },
    }
}

/// The XOR key for a timestamp, from its nanoseconds since the epoch.
pub fn generate_xor_key(nanos: Option<i64>) -> (key: u8)
    ensures
        key == timestamp_key_spec(nanos),
{
    timestamp_key(nanos)
}

/// The base key of the rotating shift for a timestamp, from its nanoseconds
/// since the epoch.
pub fn generate_base_key(nanos: Option<i64>) -> (key: u8)
    ensures
        key == timestamp_key_spec(nanos),
{
    timestamp_key(nanos)
}

/// A copy of `data` with every byte XORed with `key`.
pub fn encrypt_data(data: &[u8], key: u8) -> (out: Vec<u8>)
    ensures
        out@ == xor_spec(data@, key),
{
    let mut out: Vec<u8> = Vec::new();
    let mut i: usize = 0;
    while i < data.len()
        invariant
            i <= data@.len(),
            out@.len() == i,
            forall|j: int| 0 <= j < i ==> out@[j] == data@[j] ^ key,
        decreases data@.len() - i,
    {
        out.push(data[i] ^ key);
        i += 1;
    }
    assert(out@ =~= xor_spec(data@, key));
    out
}

/// Undoes `encrypt_data` under the same key: XOR is its own inverse.
pub fn decrypt_data(encrypted_data: &[u8], key: u8) -> (out: Vec<u8>)
    ensures
        out@ == xor_spec(encrypted_data@, key),
{
    encrypt_data(encrypted_data, key)
}

/// A copy of `data` in which the byte at position `i` is moved up by
/// `key + i`, all sums modulo 256.
pub fn encrypt_data_rcs(data: &[u8], key: u8) -> (out: Vec<u8>)
    ensures
        out@ == rotating_shift_spec(data@, key),
{
    let mut out: Vec<u8> = Vec::new();
    let mut i: usize = 0;
    while i < data.len()
        invariant
            i <= data@.len(),
            out@.len() == i,
            forall|j: int| 0 <= j < i ==> out@[j] == rotating_shift_spec(data@, key)[j],
        decreases data@.len() - i,
    {
        let shift: u8 = key.wrapping_add((i % 256) as u8);
        out.push(data[i].wrapping_add(shift));
        i += 1;
    }
    assert(out@ =~= rotating_shift_spec(data@, key));
    out
}

/// A copy of `encrypted_data` in which the byte at position `i` is moved
/// down by `key + i`, all differences modulo 256.
pub fn decrypt_data_rcs(encrypted_data: &[u8], key: u8) -> (out: Vec<u8>)
    ensures
        out@ == rotating_unshift_spec(encrypted_data@, key),
{
    let mut out: Vec<u8> = Vec::new();
    let mut i: usize = 0;
    while i < encrypted_data.len()
        invariant
            i <= encrypted_data@.len(),
            out@.len() == i,
            forall|j: int|
                0 <= j < i ==> out@[j] == rotating_unshift_spec(encrypted_data@, key)[j],
        decreases encrypted_data@.len() - i,
    {
        let shift: u8 = key.wrapping_add((i % 256) as u8);
        out.push(encrypted_data[i].wrapping_sub(shift));
        i += 1;
    }
    assert(out@ =~= rotating_unshift_spec(encrypted_data@, key));
    out
}

/// Shifting down undoes shifting up under the same key.
pub proof fn lemma_rotating_shift_round_trip(data: Seq<u8>, key: u8)
    ensures
        rotating_unshift_spec(rotating_shift_spec(data, key), key) == data,
{
    assert(rotating_unshift_spec(rotating_shift_spec(data, key), key) =~= data);
}

} // verus!
