//! The genome combiner: a bitwise selection between two parent genomes.
use vstd::prelude::*;

verus! {

/// The byte that takes each bit from `dna1` where the matching bit of `selector` is
/// set, and from `dna2` where it is clear.
pub open spec fn spec_combine_dna(dna1: u8, dna2: u8, selector: u8) -> u8 {
    (selector & dna1) | (!selector & dna2)
}

/// Bit `j` of `x`, as 0 or 1.
pub open spec fn bit(x: u8, j: u8) -> u8 {
    (x >> j) & 1
}

/// Every bit of a combined byte comes from one parent or the other, as the selector
/// bit in the same position says.
pub proof fn lemma_combine_dna_bits(dna1: u8, dna2: u8, selector: u8, j: u8)
    requires
        j < 8,
    ensures
        bit(spec_combine_dna(dna1, dna2, selector), j) == if bit(selector, j) == 1 {
            bit(dna1, j)
        } else {
            bit(dna2, j)
        },
{
    assert(j < 8 ==> ((((selector & dna1) | (!selector & dna2)) >> j) & 1) == if ((selector >> j)
        & 1) == 1 {
        (dna1 >> j) & 1
    } else {
        (dna2 >> j) & 1
    }) by (bit_vector);
}

/// Combines one byte of two genomes under one byte of selector.
pub fn combine_dna(dna1: u8, dna2: u8, selector: u8) -> (r: u8)
    ensures
        r == spec_combine_dna(dna1, dna2, selector),
{
    (selector & dna1) | (!selector & dna2)
}

/// The genome whose byte `i` is the combination of byte `i` of both parents under
/// byte `i` of the selector.
pub open spec fn spec_combine(dna1: Seq<u8>, dna2: Seq<u8>, selector: Seq<u8>) -> Seq<u8> {
    Seq::new(16, |i: int| spec_combine_dna(dna1[i], dna2[i], selector[i]))
}

/// Combines two genomes byte by byte.
pub fn combine(dna1: &[u8; 16], dna2: &[u8; 16], selector: &[u8; 16]) -> (r: [u8; 16])
    ensures
        r@ == spec_combine(dna1@, dna2@, selector@),
{
    let mut new_dna = [0u8; 16];
    for i in 0..16
        invariant
            forall|k: int| 0 <= k < i ==> new_dna@[k] == spec_combine_dna(dna1@[k], dna2@[k], selector@[k]),
    {
        new_dna[i] = combine_dna(dna1[i], dna2[i], selector[i]);
    }
    assert(new_dna@ =~= spec_combine(dna1@, dna2@, selector@));
    new_dna
}

} // verus!
