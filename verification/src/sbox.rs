//! The substitution layer: a fixed, publicly known permutation of the byte
//! values and its inverse, applied to every byte on its own.
//!
//! The table is no key material. It is the identity table shuffled by a
//! generator with a fixed seed, so both ends build the same one.

use vstd::prelude::*;
use crate::constants::SBOX_SEED;

verus! {

/// What `rand`'s slice shuffle leaves of `items` when it is driven by a
/// `StdRng` seeded from `seed`. The generator is deterministic and the
/// shuffle draws its indices alike on 32-bit and 64-bit machines, so the
/// outcome is the same in every process; it is tied to the version of
/// `rand` that the crate is built with, which both ends must share.
pub uninterp spec fn seeded_shuffle(items: Seq<u8>, seed: u64) -> Seq<u8>;

/// The table that maps every byte value to itself.
pub open spec fn identity_table() -> Seq<u8> {
    Seq::new(256, |i: int| i as u8)
}

/// The forward table of the standard substitution box.
pub open spec fn standard_table() -> Seq<u8> {
    seeded_shuffle(identity_table(), SBOX_SEED)
}

/// A table is a permutation of the byte values when it has 256 entries, no
/// value twice, and every value somewhere.
pub open spec fn is_permutation_table(table: Seq<u8>) -> bool {
    &&& table.len() == 256
    &&& table.no_duplicates()
    &&& forall|b: u8| table.contains(b)
}

/// The table that undoes `forward`: entry `b` is the place where `forward`
/// holds `b`.
pub open spec fn inverse_table_of(forward: Seq<u8>) -> Seq<u8> {
    Seq::new(256, |b: int| forward.index_of(b as u8) as u8)
}

/// Two tables undo each other, in both directions.
pub open spec fn mutually_inverse(forward: Seq<u8>, inverse: Seq<u8>) -> bool {
    &&& forward.len() == 256
    &&& inverse.len() == 256
    &&& forall|b: u8| #[trigger] inverse[forward[b as int] as int] == b
    &&& forall|b: u8| #[trigger] forward[inverse[b as int] as int] == b
}

/// Every byte of `data` looked up in `table`.
pub open spec fn substitute_spec(data: Seq<u8>, table: Seq<u8>) -> Seq<u8> {
    Seq::new(data.len(), |i: int| table[data[i] as int])
}

/// Shuffles `items` in place with `rand::seq::SliceRandom::shuffle`, driven
/// by a `rand::rngs::StdRng` made by `rand::SeedableRng::seed_from_u64`.
///
/// Taken on trust: the outcome depends on the items and the seed alone, and
/// the shuffle only swaps elements, so the items after it are the items
/// before it in another order.
#[verifier::external_body]
fn shuffle_with_seed(items: &mut Vec<u8>, seed: u64)
    ensures
        final(items)@ == seeded_shuffle(old(items)@, seed),
        final(items)@.to_multiset() == old(items)@.to_multiset(),
{
    let mut rng: rand::rngs::StdRng = rand::SeedableRng::seed_from_u64(seed);
    rand::seq::SliceRandom::shuffle(items.as_mut_slice(), &mut rng);
}

/// A reordering of the identity table is a permutation of the byte values.
pub proof fn lemma_reordered_identity_is_permutation(table: Seq<u8>)
    requires
        table.to_multiset() == identity_table().to_multiset(),
    ensures
        is_permutation_table(table),
{
    broadcast use vstd::seq_lib::group_to_multiset_ensures;

    let id = identity_table();
    assert(id.no_duplicates());
    id.lemma_multiset_has_no_duplicates();
    table.lemma_multiset_has_no_duplicates_conv();
    vstd::seq_lib::to_multiset_len(table);
    vstd::seq_lib::to_multiset_len(id);
    assert(table.len() == id.len());
    assert forall|b: u8| table.contains(b) by {
        assert(id[b as int] == b);
        assert(id.contains(b));
        assert(id.to_multiset().count(b) > 0);
    }
}

/// A substitution box: a permutation of the byte values together with its
/// inverse. Built once and then only read.
pub struct SBox {
    forward: Vec<u8>,
    inverse: Vec<u8>,
}

impl SBox {
    /// The table that substitution applies.
    pub closed spec fn forward_table(&self) -> Seq<u8> {
        self.forward@
    }

    /// The table that undoes substitution.
    pub closed spec fn inverse_table(&self) -> Seq<u8> {
        self.inverse@
    }

    /// The forward table is a permutation of the byte values and the
    /// inverse table is the one that undoes it.
    pub open spec fn wf(&self) -> bool {
        &&& is_permutation_table(self.forward_table())
        &&& self.inverse_table() == inverse_table_of(self.forward_table())
    }

    /// Builds the box of a table known to be a permutation.
    fn build(table: Vec<u8>) -> (sbox: SBox)
        requires
            is_permutation_table(table@),
        ensures
            sbox.wf(),
            sbox.forward_table() == table@,
    {
        let mut inverse: Vec<u8> = vec![0u8; 256];
        let mut i: usize = 0;
        while i < 256
            invariant
                i <= 256,
                table@.len() == 256,
                table@.no_duplicates(),
                inverse@.len() == 256,
                forall|j: int| 0 <= j < i ==> inverse@[table@[j] as int] == j,
            decreases 256 - i,
        {
            let b: u8 = table[i];
            inverse[b as usize] = i as u8;
            i += 1;
        }
        proof {
            assert forall|b: int| 0 <= b < 256 implies inverse@[b] == inverse_table_of(
                table@,
            )[b] by {
                assert(table@.contains(b as u8));
                let j = table@.index_of(b as u8);
                assert(inverse@[table@[j] as int] == j);
            }
            assert(inverse@ =~= inverse_table_of(table@));
        }
        SBox { forward: table, inverse }
    }

    /// The standard box: the identity table shuffled with the fixed seed.
    /// Every call builds the same box.
    pub fn standard() -> (sbox: SBox)
        ensures
            sbox.wf(),
            sbox.forward_table() == standard_table(),
    {
        let mut table: Vec<u8> = Vec::new();
        let mut i: usize = 0;
        while i < 256
            invariant
                i <= 256,
                table@.len() == i,
                forall|j: int| 0 <= j < i ==> table@[j] == j as u8,
            decreases 256 - i,
        {
            table.push(i as u8);
            i += 1;
        }
        assert(table@ =~= identity_table());
        shuffle_with_seed(&mut table, SBOX_SEED);
        proof {
            lemma_reordered_identity_is_permutation(table@);
        }
        SBox::build(table)
    }

    /// The box of a caller's table, or `None` where the table is no
    /// permutation of the byte values.
    pub fn from_table(table: &[u8]) -> (result: Option<SBox>)
        ensures
            result.is_some() == is_permutation_table(table@),
            result.is_some() ==> result.unwrap().wf() && result.unwrap().forward_table() == table@,
    {
        if !is_permutation(table) {
            return None;
        }
        let mut copy: Vec<u8> = Vec::new();
        let mut i: usize = 0;
        while i < 256
            invariant
                i <= 256,
                table@.len() == 256,
                copy@ == table@.subrange(0, i as int),
            decreases 256 - i,
        {
            copy.push(table[i]);
            assert(copy@ =~= table@.subrange(0, i + 1));
            i += 1;
        }
        assert(copy@ =~= table@);
        Some(SBox::build(copy))
    }

    /// The byte that substitution puts in place of `b`.
    pub fn forward(&self, b: u8) -> (out: u8)
        requires
            self.wf(),
        ensures
            out == self.forward_table()[b as int],
    {
        self.forward[b as usize]
    }

    /// The byte that substitution replaces by `b`.
    pub fn inverse(&self, b: u8) -> (out: u8)
        requires
            self.wf(),
        ensures
            out == self.inverse_table()[b as int],
    {
        self.inverse[b as usize]
    }
}

/// Whether `table` is a permutation of the byte values.
pub fn is_permutation(table: &[u8]) -> (yes: bool)
    ensures
        yes == is_permutation_table(table@),
{
    if table.len() != 256 {
        return false;
    }
    let mut seen: Vec<bool> = vec![false; 256];
    let ghost mut first: Seq<int> = Seq::new(256, |b: int| 0int);
    let mut i: usize = 0;
    while i < 256
        invariant
            i <= 256,
            table@.len() == 256,
            seen@.len() == 256,
            first.len() == 256,
            forall|j: int| 0 <= j < i ==> seen@[table@[j] as int] && first[table@[j] as int] == j,
            forall|b: int| 0 <= b < 256 && seen@[b] ==> 0 <= first[b] < i && table@[first[b]] == b,
        decreases 256 - i,
    {
        let b: u8 = table[i];
        if seen[b as usize] {
            proof {
                let j = first[b as int];
                assert(table@[j] == table@[i as int] && j != i);
            }
            return false;
        }
        seen[b as usize] = true;
        proof {
            first = first.update(b as int, i as int);
        }
        i += 1;
    }
    let mut v: usize = 0;
    while v < 256
        invariant
            v <= 256,
            table@.len() == 256,
            seen@.len() == 256,
            forall|j: int| 0 <= j < 256 ==> seen@[table@[j] as int],
            forall|b: int| 0 <= b < v ==> seen@[b],
        decreases 256 - v,
    {
        if !seen[v] {
            proof {
                let missing: u8 = v as u8;
                if table@.contains(missing) {
                    let j = choose|j: int| 0 <= j < table@.len() && table@[j] == missing;
                    assert(seen@[table@[j] as int]);
                }
            }
            return false;
        }
        v += 1;
    }
    proof {
        assert forall|b: u8| table@.contains(b) by {
            assert(seen@[b as int]);
            assert(table@[first[b as int]] == b);
        }
        assert forall|x: int, y: int|
            0 <= x < table@.len() && 0 <= y < table@.len() && x != y implies table@[x]
            != table@[y] by {
            assert(first[table@[x] as int] == x);
            assert(first[table@[y] as int] == y);
        }
    }
    true
}

/// Replaces every byte of the buffer with its entry in the forward table,
/// in place. Each byte is treated on its own.
pub fn substitute(data: &mut [u8], sbox: &SBox)
    requires
        sbox.wf(),
    ensures
        final(data)@ == substitute_spec(old(data)@, sbox.forward_table()),
{
    let n: usize = data.len();
    let mut i: usize = 0;
    while i < n
        invariant
            i <= n,
            sbox.wf(),
            data@.len() == n,
            data@.len() == old(data)@.len(),
            forall|j: int| 0 <= j < i ==> data@[j] == sbox.forward_table()[old(data)@[j] as int],
            forall|j: int| i <= j < n ==> data@[j] == old(data)@[j],
        decreases n - i,
    {
        let b: u8 = data[i];
        data[i] = sbox.forward(b);
        i += 1;
    }
    assert(data@ =~= substitute_spec(old(data)@, sbox.forward_table()));
}

/// Replaces every byte of the buffer with its entry in the inverse table,
/// in place.
pub fn inverse_substitute(data: &mut [u8], sbox: &SBox)
    requires
        sbox.wf(),
    ensures
        final(data)@ == substitute_spec(old(data)@, sbox.inverse_table()),
{
    let n: usize = data.len();
    let mut i: usize = 0;
    while i < n
        invariant
            i <= n,
            sbox.wf(),
            data@.len() == n,
            data@.len() == old(data)@.len(),
            forall|j: int| 0 <= j < i ==> data@[j] == sbox.inverse_table()[old(data)@[j] as int],
            forall|j: int| i <= j < n ==> data@[j] == old(data)@[j],
        decreases n - i,
    {
        let b: u8 = data[i];
        data[i] = sbox.inverse(b);
        i += 1;
    }
    assert(data@ =~= substitute_spec(old(data)@, sbox.inverse_table()));
}

/// A permutation table and its inverse table undo each other.
pub proof fn lemma_inverse_table_inverts(forward: Seq<u8>)
    requires
        is_permutation_table(forward),
    ensures
        mutually_inverse(forward, inverse_table_of(forward)),
{
    let inverse = inverse_table_of(forward);
    assert forall|b: u8| #[trigger] forward[inverse[b as int] as int] == b by {
        assert(forward.contains(b));
    }
    assert forall|b: u8| #[trigger] inverse[forward[b as int] as int] == b by {
        let v = forward[b as int];
        assert(forward.contains(v));
        let j = forward.index_of(v);
        assert(forward[j] == forward[b as int]);
    }
}

/// Substitution is a bijection on the byte values: looking a byte up in one
/// table and the result in the other gives the byte back, in either order.
pub proof fn lemma_substitution_bijection(sbox: SBox, b: u8)
    requires
        sbox.wf(),
    ensures
        sbox.inverse_table()[sbox.forward_table()[b as int] as int] == b,
        sbox.forward_table()[sbox.inverse_table()[b as int] as int] == b,
{
    lemma_inverse_table_inverts(sbox.forward_table());
}

/// Inverse substitution undoes substitution on whole buffers, and the
/// other way round.
pub proof fn lemma_substitute_round_trip(forward: Seq<u8>, data: Seq<u8>)
    requires
        is_permutation_table(forward),
    ensures
        substitute_spec(substitute_spec(data, forward), inverse_table_of(forward)) == data,
        substitute_spec(substitute_spec(data, inverse_table_of(forward)), forward) == data,
{
    let f = forward;
    let g = inverse_table_of(forward);
    lemma_inverse_table_inverts(forward);
    assert forall|i: int| 0 <= i < data.len() implies g[f[data[i] as int] as int] == data[i]
        && f[g[data[i] as int] as int] == data[i] by {
        let b: u8 = data[i];
        assert(g[f[b as int] as int] == b);
        assert(f[g[b as int] as int] == b);
    }
    assert(substitute_spec(substitute_spec(data, f), g) =~= data);
    assert(substitute_spec(substitute_spec(data, g), f) =~= data);
}

} // verus!
