//! The stream XOR layer.

use vstd::prelude::*;

verus! {

/// Every byte of `data` XORed with `k1`.
pub open spec fn xor_spec(data: Seq<u8>, k1: u8) -> Seq<u8> {
    Seq::new(data.len(), |i: int| data[i] ^ k1)
}

/// XORs every byte of the buffer with the single byte `k1`, in place.
pub fn xor_with_key(data: &mut [u8], k1: u8)
    ensures
        final(data)@ == xor_spec(old(data)@, k1),
{
    let n: usize = data.len();
    let mut i: usize = 0;
    while i < n
        invariant
            i <= n,
            data@.len() == n,
            data@.len() == old(data)@.len(),
            forall|j: int| 0 <= j < i ==> data@[j] == old(data)@[j] ^ k1,
            forall|j: int| i <= j < n ==> data@[j] == old(data)@[j],
        decreases n - i,
    {
        let b: u8 = data[i];
        data[i] = b ^ k1;
        i += 1;
    }
    assert(data@ =~= xor_spec(old(data)@, k1));
}

/// Applying the layer twice with one key gives the buffer back.
pub proof fn lemma_xor_involution(data: Seq<u8>, k1: u8)
    ensures
        xor_spec(xor_spec(data, k1), k1) == data,
{
    assert forall|i: int| 0 <= i < data.len() implies (data[i] ^ k1) ^ k1 == data[i] by {
        let b: u8 = data[i];
        assert((b ^ k1) ^ k1 == b) by (bit_vector);
    }
    assert(xor_spec(xor_spec(data, k1), k1) =~= data);
}

} // verus!
