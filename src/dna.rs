//! Identifier generation and derivation.
use vstd::prelude::*;

verus! {

/// The two-valued trait of a kitty.
#[derive(Clone, Copy, Debug, PartialEq, Eq, Structural)]
pub enum Gender {
    Male,
    Female,
}

/// What a 128-bit Blake2 hash of `data` gives.
pub uninterp spec fn blake2_128_of(data: Seq<u8>) -> Seq<u8>;

/// Relies on sp_io::hashing::blake2_128: a 16-byte digest that depends on the bytes hashed alone.
#[verifier::external_body]
fn blake2_128(data: &[u8]) -> (r: [u8; 16])
    ensures
        r@ == blake2_128_of(data@),
{
    sp_io::hashing::blake2_128(data)
}

/// The little-endian bytes of the low `n` bytes of `x`.
pub open spec fn le_bytes(x: nat, n: nat) -> Seq<u8>
    decreases n,
{
    if n == 0 {
        seq![]
    } else {
        seq![(x % 256) as u8] + le_bytes(x / 256, (n - 1) as nat)
    }
}

/// The bytes hashed to make a fresh identifier: the random value, then the
/// operation index (4 bytes) and the height (8 bytes), each little-endian.
pub open spec fn payload_of(random: Seq<u8>, extrinsic_index: u32, block_number: u64) -> Seq<u8> {
    random + le_bytes(extrinsic_index as nat, 4) + le_bytes(block_number as nat, 8)
}

/// The trait that an identifier's first byte selects: even is male, odd is female.
pub open spec fn gender_of(id: Seq<u8>) -> Gender {
    if id[0] % 2 == 0 {
        Gender::Male
    } else {
        Gender::Female
    }
}

/// The identifier generated from the random value, operation index and height.
pub open spec fn generated_dna(random: Seq<u8>, extrinsic_index: u32, block_number: u64) -> Seq<u8> {
    blake2_128_of(payload_of(random, extrinsic_index, block_number))
}

/// One byte of a derived identifier: the first parent's if the selector is even.
pub open spec fn mutate_spec(b1: u8, b2: u8, r: u8) -> u8 {
    if r % 2 == 0 {
        b1
    } else {
        b2
    }
}

/// The identifier derived from two parents under a selector, byte by byte.
pub open spec fn derived_dna(p1: Seq<u8>, p2: Seq<u8>, selector: Seq<u8>) -> Seq<u8>
    recommends
        p1.len() == selector.len(),
        p2.len() == selector.len(),
{
    Seq::new(selector.len(), |i: int| mutate_spec(p1[i], p2[i], selector[i]))
}

/// Appends the `n` little-endian bytes of `x` to `out`.
fn push_le_bytes(out: &mut Vec<u8>, x: u64, n: usize)
    requires
        n <= 8,
    ensures
        final(out)@ == old(out)@ + le_bytes(x as nat, n as nat),
{
    let mut i: usize = 0;
    let mut rest: u64 = x;
    while i < n
        invariant
            i <= n,
            out@ + le_bytes(rest as nat, (n - i) as nat) == old(out)@ + le_bytes(x as nat, n as nat),
        decreases n - i,
    {
        let b: u8 = (rest % 256) as u8;
        proof {
            assert(le_bytes(rest as nat, (n - i) as nat) == seq![b] + le_bytes(
                (rest / 256) as nat,
                (n - i - 1) as nat,
            ));
        }
        out.push(b);
        proof {
            assert(out@ + le_bytes((rest / 256) as nat, (n - i - 1) as nat) =~= old(out)@
                + le_bytes(x as nat, n as nat)) by {
                assert(out@ + le_bytes((rest / 256) as nat, (n - i - 1) as nat) =~= (out@.drop_last()
                    + le_bytes(rest as nat, (n - i) as nat)));
            }
        }
        rest = rest / 256;
        i = i + 1;
    }
}

/// The bytes hashed to make a fresh identifier.
pub fn encode_payload(random: &[u8; 32], extrinsic_index: u32, block_number: u64) -> (r: Vec<u8>)
    ensures
        r@ == payload_of(random@, extrinsic_index, block_number),
{
    let mut out: Vec<u8> = Vec::new();
    let mut i: usize = 0;
    while i < 32
        invariant
            i <= 32,
            out@ == random@.subrange(0, i as int),
        decreases 32 - i,
    {
        out.push(random[i]);
        proof {
            assert(out@ =~= random@.subrange(0, i + 1));
        }
        i = i + 1;
    }
    assert(out@ =~= random@);
    push_le_bytes(&mut out, extrinsic_index as u64, 4);
    push_le_bytes(&mut out, block_number, 8);
    out
}

/// A fresh identifier and its trait, from the random value, the index of the
/// operation within the block, and the block number.
pub fn gen_dna(random: &[u8; 32], extrinsic_index: u32, block_number: u64) -> (r: ([u8; 16], Gender))
    ensures
        r.0@ == generated_dna(random@, extrinsic_index, block_number),
        r.1 == gender_of(r.0@),
{
    let payload = encode_payload(random, extrinsic_index, block_number);
    let hash = blake2_128(payload.as_slice());
    if hash[0] % 2 == 0 {
        (hash, Gender::Male)
    } else {
        (hash, Gender::Female)
    }
}

fn mutate_dna_fragment(dna_fragment1: u8, dna_fragment2: u8, random_value: u8) -> (r: u8)
    ensures
        r == mutate_spec(dna_fragment1, dna_fragment2, random_value),
{
    if random_value % 2 == 0 {
        dna_fragment1
    } else {
        dna_fragment2
    }
}

/// The identifier derived from two parents under a selector.
pub fn derive_dna(parent1: &[u8; 16], parent2: &[u8; 16], selector: &[u8; 16]) -> (r: [u8; 16])
    ensures
        r@ == derived_dna(parent1@, parent2@, selector@),
{
    let mut new_dna: [u8; 16] = *selector;
    let mut i: usize = 0;
    while i < 16
        invariant
            i <= 16,
            new_dna@.len() == 16,
            forall|j: int| 0 <= j < i ==> new_dna@[j] == mutate_spec(parent1@[j], parent2@[j], selector@[j]),
            forall|j: int| i <= j < 16 ==> new_dna@[j] == selector@[j],
        decreases 16 - i,
    {
        let b = mutate_dna_fragment(parent1[i], parent2[i], new_dna[i]);
        new_dna[i] = b;
        i = i + 1;
    }
    assert(new_dna@ =~= derived_dna(parent1@, parent2@, selector@));
    new_dna
}

/// A child identifier derived from two parents under a freshly generated
/// selector, with the trait generated beside it.
pub fn breed_dna(
    parent1: &[u8; 16],
    parent2: &[u8; 16],
    random: &[u8; 32],
    extrinsic_index: u32,
    block_number: u64,
) -> (r: ([u8; 16], Gender))
    ensures
        r.0@ == derived_dna(parent1@, parent2@, generated_dna(random@, extrinsic_index, block_number)),
        r.1 == gender_of(generated_dna(random@, extrinsic_index, block_number)),
{
    let (selector, gender) = gen_dna(random, extrinsic_index, block_number);
    (derive_dna(parent1, parent2, &selector), gender)
}

/// Derivation is a function of the parents and the selector alone: two
/// derivations under the same selector agree byte for byte, and each byte of
/// the result is the first or the second parent's byte at that place.
pub proof fn lemma_derivation_deterministic(
    p1: [u8; 16],
    p2: [u8; 16],
    selector: [u8; 16],
    r1: [u8; 16],
    r2: [u8; 16],
)
    requires
        r1@ == derived_dna(p1@, p2@, selector@),
        r2@ == derived_dna(p1@, p2@, selector@),
    ensures
        r1 == r2,
        forall|i: int| 0 <= i < 16 ==> r1@[i] == p1@[i] || r1@[i] == p2@[i],
{
    assert(r1 =~= r2);
}

} // verus!
