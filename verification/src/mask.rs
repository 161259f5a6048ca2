//! Bitmask identities of basis blades.
//!
//! A basis blade is identified by the set of basis-vector indices that it is
//! made of, written as a bitmask: bit `i` is set exactly when basis vector `i`
//! takes part. The order of the wedge is not recorded. Everything that is known
//! of a blade besides its coefficient is derived from this mask.
//!
//! The specifications read a mask as a natural number, so that they do not
//! depend on the width of the machine word that holds it.

use vstd::arithmetic::power2::{
    lemma2_to64, lemma_pow2_pos, lemma_pow2_strictly_increases, lemma_pow2_unfold, pow2,
};
use vstd::bits::lemma_usize_shr_is_div;
use vstd::prelude::*;

verus! {

/// Whether basis vector `index` takes part in the blade identified by `mask`:
/// the binary digit of weight `2^index` is one.
pub open spec fn has_basis(mask: nat, index: nat) -> bool {
    (mask / pow2(index)) % 2 == 1
}

/// The grade of the blade identified by `mask`: the number of ones among the
/// binary digits of `mask`.
pub open spec fn grade_of(mask: nat) -> nat
    decreases mask,
{
    if mask == 0 {
        0
    } else {
        mask % 2 + grade_of(mask / 2)
    }
}

/// The minimum embedding dimension of the blade identified by `mask`: the
/// number of binary digits of `mask`, which is zero for the scalar.
pub open spec fn min_dim_of(mask: nat) -> nat
    decreases mask,
{
    if mask == 0 {
        0
    } else {
        1 + min_dim_of(mask / 2)
    }
}

/// A mask of `d` digits lies between `2^(d-1)` and `2^d`, and only the scalar
/// has no digit.
pub proof fn lemma_min_dim_bounds(mask: nat)
    ensures
        mask == 0 <==> min_dim_of(mask) == 0,
        mask > 0 ==> pow2((min_dim_of(mask) - 1) as nat) <= mask < pow2(min_dim_of(mask)),
    decreases mask,
{
    if mask == 1 {
        assert(min_dim_of(0) == 0);
        lemma2_to64();
    } else if mask > 1 {
        lemma_min_dim_bounds(mask / 2);
        lemma_pow2_unfold(min_dim_of(mask));
        lemma_pow2_unfold(min_dim_of(mask / 2));
    }
}

/// The minimum embedding dimension is one more than the highest index that
/// takes part in the blade.
pub proof fn lemma_min_dim_is_highest_basis(mask: nat)
    ensures
        mask > 0 ==> has_basis(mask, (min_dim_of(mask) - 1) as nat),
        forall|index: nat| index >= min_dim_of(mask) ==> !has_basis(mask, index),
{
    lemma_min_dim_bounds(mask);
    let d = min_dim_of(mask);
    if mask > 0 {
        let low = pow2((d - 1) as nat);
        lemma_pow2_unfold(d);
        assert(mask / low == 1) by (nonlinear_arith)
            requires
                0 < low <= mask < 2 * low,
        ;
    }
    assert forall|index: nat| index >= d implies !has_basis(mask, index) by {
        if index > d {
            lemma_pow2_strictly_increases(d, index);
        }
        lemma_pow2_pos(index);
        let high = pow2(index);
        assert(mask / high == 0) by (nonlinear_arith)
            requires
                0 <= mask < high,
        ;
    }
}

/// A blade has no more basis vectors than its embedding dimension.
pub proof fn lemma_grade_at_most_min_dim(mask: nat)
    ensures
        grade_of(mask) <= min_dim_of(mask),
    decreases mask,
{
    if mask > 0 {
        lemma_grade_at_most_min_dim(mask / 2);
    }
}

/// A blade of an `n`-dimensional space has a grade of at most `n`.
pub proof fn lemma_grade_within_dimension(mask: nat, n: nat)
    requires
        mask < pow2(n),
    ensures
        grade_of(mask) <= n,
{
    lemma_grade_at_most_min_dim(mask);
    lemma_min_dim_bounds(mask);
    let d = min_dim_of(mask);
    if d > n {
        if d - 1 > n {
            lemma_pow2_strictly_increases(n, (d - 1) as nat);
        }
    }
}

/// Every mask that fits a machine word has at most as many digits as the word.
pub proof fn lemma_min_dim_of_word(mask: usize)
    ensures
        min_dim_of(mask as nat) <= usize::BITS,
        mask < pow2(usize::BITS as nat),
{
    lemma2_to64();
    lemma_min_dim_bounds(mask as nat);
    let d = min_dim_of(mask as nat);
    if d > usize::BITS {
        if d - 1 > usize::BITS {
            lemma_pow2_strictly_increases(usize::BITS as nat, (d - 1) as nat);
        }
    }
}

/// Counts the basis vectors of the blade identified by `mask`.
pub fn grade(mask: usize) -> (g: usize)
    ensures
        g == grade_of(mask as nat),
        mask == 0 ==> g == 0,
{
    let mut rest = mask;
    let mut count: usize = 0;
    proof {
        lemma_grade_at_most_min_dim(mask as nat);
        lemma_min_dim_of_word(mask);
    }
    while rest != 0
        invariant
            count + grade_of(rest as nat) == grade_of(mask as nat),
            grade_of(mask as nat) <= usize::BITS,
        decreases rest,
    {
        assert(rest & 1 == rest % 2) by (bit_vector);
        assert(rest >> 1 == rest / 2) by (bit_vector);
        count = count + (rest & 1);
        rest = rest >> 1;
    }
    count
}

/// Finds the minimum embedding dimension of the blade identified by `mask`:
/// zero for the scalar, else one more than its highest basis-vector index.
pub fn min_dim(mask: usize) -> (d: usize)
    ensures
        d == min_dim_of(mask as nat),
        d == 0 <==> mask == 0,
        mask != 0 ==> has_basis(mask as nat, (d - 1) as nat),
        forall|index: nat| index >= d ==> !has_basis(mask as nat, index),
        d <= usize::BITS,
{
    proof {
        lemma_min_dim_is_highest_basis(mask as nat);
        lemma_min_dim_bounds(mask as nat);
        lemma_min_dim_of_word(mask);
    }
    if mask == 0 {
        0
    } else {
        let mut rest = mask;
        let mut position: usize = 0;
        while rest > 1
            invariant
                rest >= 1,
                position + min_dim_of(rest as nat) == min_dim_of(mask as nat),
                min_dim_of(mask as nat) <= usize::BITS,
            decreases rest,
        {
            assert(rest >> 1 == rest / 2) by (bit_vector);
            rest = rest >> 1;
            position = position + 1;
        }
        assert(min_dim_of(1) == 1 + min_dim_of(0));
        position + 1
    }
}

/// Tells whether basis vector `index` takes part in the blade identified by
/// `mask`. An index beyond the width of the mask takes part in no blade.
pub fn contains_basis(mask: usize, index: usize) -> (present: bool)
    ensures
        present == has_basis(mask as nat, index as nat),
{
    if index >= usize::BITS as usize {
        proof {
            lemma_min_dim_of_word(mask);
            lemma_min_dim_is_highest_basis(mask as nat);
        }
        false
    } else {
        proof {
            lemma_bit_test(mask, index);
        }
        (mask & (1usize << index)) != 0
    }
}

/// Testing bit `index` of a word by a shifted one agrees with `has_basis`.
proof fn lemma_bit_test(mask: usize, index: usize)
    requires
        index < usize::BITS,
    ensures
        ((mask & (1usize << index)) != 0) == has_basis(mask as nat, index as nat),
{
    assert(((mask & (1usize << index)) != 0) == ((mask >> index) % 2 == 1)) by (bit_vector)
        requires
            index < usize::BITS,
    ;
    lemma_usize_shr_is_div(mask, index);
}

/// The mask that is made by OR-ing `1 << index` for every index of the list.
pub open spec fn mask_from_indices(indices: Seq<usize>) -> usize
    decreases indices.len(),
{
    if indices.len() == 0 {
        0
    } else {
        mask_from_indices(indices.drop_last()) | (1usize << indices.last())
    }
}

/// The part of `mask` that lies in its lowest `count` bits.
spec fn low_bits(mask: usize, count: usize) -> usize {
    if count >= usize::BITS {
        mask
    } else {
        mask & !(!0usize << count)
    }
}

/// Taking one more bit into the low part of a mask either ORs that bit in or
/// changes nothing.
proof fn lemma_low_bits_step(mask: usize, index: usize)
    requires
        index < usize::BITS,
    ensures
        low_bits(mask, (index + 1) as usize) == if (mask & (1usize << index)) != 0 {
            low_bits(mask, index) | (1usize << index)
        } else {
            low_bits(mask, index)
        },
{
    let next = (index + 1) as usize;
    if next < usize::BITS {
        assert(mask & !(!0usize << next) == if (mask & (1usize << index)) != 0 {
            (mask & !(!0usize << index)) | (1usize << index)
        } else {
            mask & !(!0usize << index)
        }) by (bit_vector)
            requires
                next < usize::BITS,
                next == index + 1,
        ;
    } else {
        assert(mask == if (mask & (1usize << index)) != 0 {
            (mask & !(!0usize << index)) | (1usize << index)
        } else {
            mask & !(!0usize << index)
        }) by (bit_vector)
            requires
                index == usize::BITS - 1,
        ;
    }
}

/// Lists the basis-vector indices of the blade identified by `mask`, lowest
/// first.
pub fn basis_indices(mask: usize) -> (indices: Vec<usize>)
    ensures
        forall|i: int, j: int| 0 <= i < j < indices.len() ==> indices[i] < indices[j],
        forall|index: usize| indices@.contains(index) <==> has_basis(mask as nat, index as nat),
        indices.len() == grade_of(mask as nat),
        mask_from_indices(indices@) == mask,
{
    let mut indices: Vec<usize> = Vec::new();
    let mut index: usize = 0;
    let ghost mut high: nat = mask as nat;
    proof {
        lemma2_to64();
        assert(mask & !(!0usize << 0usize) == 0) by (bit_vector);
    }
    while index < usize::BITS as usize
        invariant
            index <= usize::BITS,
            forall|i: int, j: int| 0 <= i < j < indices.len() ==> indices[i] < indices[j],
            forall|i: int| 0 <= i < indices.len() ==> indices[i] < index,
            forall|other: usize|
                indices@.contains(other) <==> other < index && has_basis(
                    mask as nat,
                    other as nat,
                ),
            high == mask as nat / pow2(index as nat),
            indices.len() + grade_of(high) == grade_of(mask as nat),
            mask_from_indices(indices@) == low_bits(mask, index),
        decreases usize::BITS - index,
    {
        proof {
            lemma_bit_test(mask, index);
            lemma_low_bits_step(mask, index);
            lemma_digits_above(mask as nat, index as nat);
        }
        let ghost before = indices@;
        if (mask & (1usize << index)) != 0 {
            indices.push(index);
            proof {
                assert(indices@.drop_last() == before);
                assert forall|other: usize|
                    indices@.contains(other) <==> other < index + 1 && has_basis(
                        mask as nat,
                        other as nat,
                    ) by {
                    if other == index {
                        assert(indices@[indices.len() - 1] == other);
                    } else if before.contains(other) {
                        let i = choose|i: int| 0 <= i < before.len() && before[i] == other;
                        assert(indices@[i] == other);
                    } else if indices@.contains(other) {
                        let i = choose|i: int| 0 <= i < indices.len() && indices@[i] == other;
                        assert(before[i] == other);
                    }
                }
            }
        }
        index = index + 1;
        proof {
            high = high / 2;
        }
    }
    proof {
        lemma_min_dim_of_word(mask);
        let all = pow2(usize::BITS as nat);
        assert(mask as nat / all == 0) by (nonlinear_arith)
            requires
                0 <= mask < all,
        ;
        assert forall|other: usize| has_basis(mask as nat, other as nat) implies other
            < usize::BITS by {
            lemma_min_dim_is_highest_basis(mask as nat);
        }
    }
    indices
}

/// The digits of a mask above `index + 1` are those above `index` without
/// the lowest of them.
proof fn lemma_digits_above(mask: nat, index: nat)
    ensures
        (mask / pow2(index)) / 2 == mask / pow2(index + 1),
{
    lemma_pow2_pos(index);
    lemma_pow2_unfold(index + 1);
    vstd::arithmetic::div_mod::lemma_div_denominator(mask as int, pow2(index) as int, 2);
}

} // verus!
