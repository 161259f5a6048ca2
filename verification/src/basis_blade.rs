//! A single basis blade with its coefficient.

use crate::mask::{grade_of, has_basis, mask_from_indices, min_dim_of};
use vstd::prelude::*;

verus! {

/// One elementary basis element together with its coefficient.
///
/// `BASIS` is the bitmask that identifies the blade: bit `i` is set exactly
/// when basis vector `i` takes part. In three dimensions `0b000` is the scalar,
/// `0b001`, `0b010` and `0b100` are the basis vectors, `0b011` is the bivector
/// of the first two of them and `0b111` the trivector.
///
/// The mask belongs to the type, so the coefficient is all that a value
/// carries, and the grade and the minimum dimension of two blades of one type
/// always agree.
#[derive(Debug, PartialEq)]
pub struct BasisBlade<T: Copy, const BASIS: usize> {
    pub coefficient: T,
}

impl<T: Copy, const BASIS: usize> Clone for BasisBlade<T, BASIS> {
    fn clone(&self) -> (copy: Self)
        ensures
            copy == *self,
    {
        *self
    }
}

impl<T: Copy, const BASIS: usize> Copy for BasisBlade<T, BASIS> {

}

impl<T: Copy, const BASIS: usize> BasisBlade<T, BASIS> {
    /// Makes the blade with the given coefficient.
    pub fn new(coefficient: T) -> (blade: Self)
        ensures
            blade.coefficient == coefficient,
    {
        Self { coefficient }
    }

    /// The bitmask that identifies blades of this type.
    pub fn basis() -> (mask: usize)
        ensures
            mask == BASIS,
    {
        BASIS
    }

    /// The grade of the blade: the number of basis vectors it is made of,
    /// which is the population count of its mask.
    pub fn grade(&self) -> (g: usize)
        ensures
            g == grade_of(BASIS as nat),
            BASIS == 0 ==> g == 0,
    {
        crate::mask::grade(BASIS)
    }

    /// The minimum dimension of a space that holds the blade: zero for the
    /// scalar, else one more than the highest index among its basis vectors.
    pub fn min_dim(&self) -> (d: usize)
        ensures
            d == min_dim_of(BASIS as nat),
            d == 0 <==> BASIS == 0,
            BASIS != 0 ==> has_basis(BASIS as nat, (d - 1) as nat),
            forall|index: nat| index >= d ==> !#[trigger] has_basis(BASIS as nat, index),
    {
        crate::mask::min_dim(BASIS)
    }

    /// The coefficient of the blade.
    pub fn coefficient(&self) -> (c: T)
        ensures
            c == self.coefficient,
    {
        self.coefficient
    }

    /// Tells whether basis vector `index` takes part in blades of this type.
    pub fn contains_basis(index: usize) -> (present: bool)
        ensures
            present == has_basis(BASIS as nat, index as nat),
    {
        crate::mask::contains_basis(BASIS, index)
    }

    /// Lists the indices of the basis vectors of blades of this type in
    /// strictly ascending order. OR-ing `1 << i` over the list gives the mask
    /// back.
    pub fn basis_indices() -> (indices: Vec<usize>)
        ensures
            forall|i: int, j: int| 0 <= i < j < indices.len() ==> indices[i] < indices[j],
            forall|index: usize| indices@.contains(index) <==> has_basis(BASIS as nat, index as nat),
            indices.len() == grade_of(BASIS as nat),
            mask_from_indices(indices@) == BASIS,
    {
        crate::mask::basis_indices(BASIS)
    }
}

} // verus!
