//! The permutation layer: a fixed exchange of byte positions inside every
//! full block. A ragged tail shorter than a block is left as it is.

use vstd::prelude::*;
use crate::constants::BLOCK_SIZE;

verus! {

/// `s` with the entries at `i` and `j` exchanged.
pub open spec fn swap_spec(s: Seq<u8>, i: int, j: int) -> Seq<u8> {
    s.update(i, s[j]).update(j, s[i])
}

/// One block permuted: first and last byte exchanged, then second and
/// second to last.
pub open spec fn permute_block(block: Seq<u8>) -> Seq<u8> {
    swap_spec(swap_spec(block, 0, BLOCK_SIZE - 1), 1, BLOCK_SIZE - 2)
}

/// One block put back: the same two exchanges in the opposite order.
pub open spec fn inverse_permute_block(block: Seq<u8>) -> Seq<u8> {
    swap_spec(swap_spec(block, 1, BLOCK_SIZE - 2), 0, BLOCK_SIZE - 1)
}

/// Index at which the block that holds index `i` starts.
pub open spec fn block_start(i: int) -> int {
    i - i % (BLOCK_SIZE as int)
}

/// The full block of `data` that holds index `i`.
pub open spec fn block_of(data: Seq<u8>, i: int) -> Seq<u8> {
    data.subrange(block_start(i), block_start(i) + BLOCK_SIZE)
}

/// Whether index `i` lies in a full block of a buffer of `len` bytes.
pub open spec fn in_full_block(i: int, len: int) -> bool {
    block_start(i) + BLOCK_SIZE <= len
}

/// The buffer with every full block permuted.
pub open spec fn permute_spec(data: Seq<u8>) -> Seq<u8> {
    Seq::new(
        data.len(),
        |i: int|
            if in_full_block(i, data.len() as int) {
                permute_block(block_of(data, i))[i % (BLOCK_SIZE as int)]
            } else {
                data[i]
            },
    )
}

/// The buffer with every full block put back.
pub open spec fn inverse_permute_spec(data: Seq<u8>) -> Seq<u8> {
    Seq::new(
        data.len(),
        |i: int|
            if in_full_block(i, data.len() as int) {
                inverse_permute_block(block_of(data, i))[i % (BLOCK_SIZE as int)]
            } else {
                data[i]
            },
    )
}

/// Exchanges two bytes of the buffer.
fn swap_bytes(data: &mut [u8], i: usize, j: usize)
    requires
        i < old(data)@.len(),
        j < old(data)@.len(),
    ensures
        final(data)@ == swap_spec(old(data)@, i as int, j as int),
{
    let a: u8 = data[i];
    let b: u8 = data[j];
    data[i] = b;
    data[j] = a;
}

/// Permutes every full block of the buffer in place: byte 0 changes place
/// with byte 15, then byte 1 with byte 14.
pub fn permute_blocks(data: &mut [u8])
    ensures
        final(data)@ == permute_spec(old(data)@),
{
    let n: usize = data.len();
    let mut base: usize = 0;
    while n - base >= BLOCK_SIZE
        invariant
            base <= n,
            base % BLOCK_SIZE == 0,
            data@.len() == n,
            old(data)@.len() == n,
            forall|j: int| 0 <= j < base ==> data@[j] == permute_spec(old(data)@)[j],
            forall|j: int| base <= j < n ==> data@[j] == old(data)@[j],
        decreases n - base,
    {
        let ghost before = data@;
        swap_bytes(data, base, base + (BLOCK_SIZE - 1));
        swap_bytes(data, base + 1, base + (BLOCK_SIZE - 2));
        proof {
            let orig = old(data)@;
            assert forall|j: int| base <= j < base + BLOCK_SIZE implies data@[j] == permute_spec(
                orig,
            )[j] by {
                assert(block_start(j) == base);
                assert(j % (BLOCK_SIZE as int) == j - base);
                let block = block_of(orig, j);
                assert(forall|k: int| 0 <= k < 16 ==> block[k] == orig[base + k]);
            }
            assert forall|j: int| 0 <= j < base implies data@[j] == permute_spec(orig)[j] by {
                assert(data@[j] == before[j]);
            }
        }
        base += BLOCK_SIZE;
    }
    proof {
        let orig = old(data)@;
        assert forall|j: int| base <= j < n implies data@[j] == permute_spec(orig)[j] by {
            assert(block_start(j) >= base);
        }
        assert(data@ =~= permute_spec(orig));
    }
}

/// Puts every full block of the buffer back in place: byte 1 changes place
/// with byte 14, then byte 0 with byte 15.
pub fn inverse_permute_blocks(data: &mut [u8])
    ensures
        final(data)@ == inverse_permute_spec(old(data)@),
{
    let n: usize = data.len();
    let mut base: usize = 0;
    while n - base >= BLOCK_SIZE
        invariant
            base <= n,
            base % BLOCK_SIZE == 0,
            data@.len() == n,
            old(data)@.len() == n,
            forall|j: int| 0 <= j < base ==> data@[j] == inverse_permute_spec(old(data)@)[j],
            forall|j: int| base <= j < n ==> data@[j] == old(data)@[j],
        decreases n - base,
    {
        let ghost before = data@;
        swap_bytes(data, base + 1, base + (BLOCK_SIZE - 2));
        swap_bytes(data, base, base + (BLOCK_SIZE - 1));
        proof {
            let orig = old(data)@;
            assert forall|j: int|
                base <= j < base + BLOCK_SIZE implies data@[j] == inverse_permute_spec(orig)[j] by {
                assert(block_start(j) == base);
                assert(j % (BLOCK_SIZE as int) == j - base);
                let block = block_of(orig, j);
                assert(forall|k: int| 0 <= k < 16 ==> block[k] == orig[base + k]);
            }
            assert forall|j: int| 0 <= j < base implies data@[j] == inverse_permute_spec(
                orig,
            )[j] by {
                assert(data@[j] == before[j]);
            }
        }
        base += BLOCK_SIZE;
    }
    proof {
        let orig = old(data)@;
        assert forall|j: int| base <= j < n implies data@[j] == inverse_permute_spec(orig)[j] by {
            assert(block_start(j) >= base);
        }
        assert(data@ =~= inverse_permute_spec(orig));
    }
}

/// On one block the two orders of the exchanges agree, and doing them
/// twice gives the block back.
pub proof fn lemma_block_permutation(block: Seq<u8>)
    requires
        block.len() == BLOCK_SIZE,
    ensures
        inverse_permute_block(block) == permute_block(block),
        inverse_permute_block(permute_block(block)) == block,
        permute_block(inverse_permute_block(block)) == block,
{
    assert(inverse_permute_block(block) =~= permute_block(block));
    assert(inverse_permute_block(permute_block(block)) =~= block);
    assert(permute_block(inverse_permute_block(block)) =~= block);
}

/// Putting back undoes permuting on whole buffers, ragged tail or not, and
/// the other way round.
pub proof fn lemma_permute_round_trip(data: Seq<u8>)
    ensures
        permute_spec(data).len() == data.len(),
        inverse_permute_spec(permute_spec(data)) == data,
        permute_spec(inverse_permute_spec(data)) == data,
{
    let p = permute_spec(data);
    let q = inverse_permute_spec(data);
    assert forall|i: int| 0 <= i < data.len() implies inverse_permute_spec(p)[i] == data[i]
        && permute_spec(q)[i] == data[i] by {
        if in_full_block(i, data.len() as int) {
            let base = block_start(i);
            let block = block_of(data, i);
            lemma_block_permutation(block);
            assert forall|k: int| 0 <= k < 16 implies block_of(p, i)[k] == permute_block(block)[k]
                && block_of(q, i)[k] == inverse_permute_block(block)[k] by {
                assert(block_start(base + k) == base);
                assert((base + k) % (BLOCK_SIZE as int) == k);
                assert(p[base + k] == permute_block(block_of(data, base + k))[k]);
                assert(q[base + k] == inverse_permute_block(block_of(data, base + k))[k]);
            }
            assert(block_of(p, i) =~= permute_block(block));
            assert(block_of(q, i) =~= inverse_permute_block(block));
            assert(block[i % (BLOCK_SIZE as int)] == data[i]);
        }
    }
    assert(inverse_permute_spec(p) =~= data);
    assert(permute_spec(q) =~= data);
}

} // verus!
