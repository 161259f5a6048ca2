//! Blades of a single grade in packed storage.
//!
//! A multivector of `N` dimensions has `2^N` coefficients. Where all content
//! is known to be of one grade `G`, a [`Blade`] holds only the `C(N, G)`
//! coefficients of that grade.

use crate::coefficient::Coefficient;
use crate::combinatorics::{binomial, binomial_coefficient, lemma_binomial_one};
use vstd::prelude::*;

verus! {

/// The coefficients of the grade-`G` part of an `N`-dimensional space, and
/// nothing else. A grade above the dimension leaves no coefficient at all: such
/// a blade can be made, and no index into it is in bounds.
pub struct Blade<T: Copy, const G: usize, const N: usize> {
    coefficients: Vec<T>,
}

/// A blade of grade 1.
pub type Vector<T, const N: usize> = Blade<T, 1, N>;

/// A blade of grade 2.
pub type Bivector<T, const N: usize> = Blade<T, 2, N>;

/// A blade of grade 3.
pub type Trivector<T, const N: usize> = Blade<T, 3, N>;

impl<T: Copy, const G: usize, const N: usize> View for Blade<T, G, N> {
    type V = Seq<T>;

    /// The coefficients in storage order.
    closed spec fn view(&self) -> Seq<T> {
        self.coefficients@
    }
}

impl<T: Copy, const G: usize, const N: usize> Blade<T, G, N> {
    /// The invariant of the type: there are exactly `C(N, G)` coefficients.
    pub open spec fn well_formed(&self) -> bool {
        self@.len() == binomial_coefficient(N as nat, G as nat)
    }

    /// The number of coefficients, which is `C(N, G)`.
    pub fn len(&self) -> (n: usize)
        requires
            self.well_formed(),
        ensures
            n == binomial_coefficient(N as nat, G as nat),
    {
        self.coefficients.len()
    }

    /// The coefficient at `index`, or nothing where `index` is out of bounds,
    /// that is not below `C(N, G)`.
    pub fn get(&self, index: usize) -> (found: Option<T>)
        requires
            self.well_formed(),
        ensures
            index < binomial_coefficient(N as nat, G as nat) ==> found == Some(self@[index as int]),
            index >= binomial_coefficient(N as nat, G as nat) ==> found.is_none(),
    {
        if index < self.coefficients.len() {
            Some(self.coefficients[index])
        } else {
            None
        }
    }
}

impl<T: Coefficient, const G: usize, const N: usize> Blade<T, G, N> {
    /// Makes the blade whose coefficients are all the additive identity. The
    /// number of coefficients is computed here, once, from `N` and `G`.
    pub fn zero() -> (blade: Self)
        requires
            binomial_coefficient(N as nat, G as nat) <= usize::MAX,
        ensures
            blade.well_formed(),
            forall|i: int| 0 <= i < blade@.len() ==> blade@[i] == T::zero_value(),
    {
        let size = binomial(N, G);
        let mut coefficients: Vec<T> = Vec::new();
        let mut filled: usize = 0;
        while filled < size
            invariant
                filled <= size,
                coefficients@.len() == filled,
                forall|i: int| 0 <= i < filled ==> coefficients@[i] == T::zero_value(),
            decreases size - filled,
        {
            coefficients.push(T::zero());
            filled = filled + 1;
        }
        Self { coefficients }
    }
}

impl<T: Copy, const G: usize, const N: usize> vstd::std_specs::core::IndexSpecImpl<usize> for Blade<T, G, N> {
    /// An index is in bounds where it is below `C(N, G)`.
    open spec fn index_req(&self, index: &usize) -> bool {
        self.well_formed() && *index < binomial_coefficient(N as nat, G as nat)
    }
}

impl<T: Copy, const G: usize, const N: usize> std::ops::Index<usize> for Blade<T, G, N> {
    type Output = T;

    /// The coefficient at `index`, which must be in bounds.
    fn index(&self, index: usize) -> (output: &T)
        ensures
            *output == self@[index as int],
    {
        &self.coefficients[index]
    }
}

impl<T: Copy, const G: usize, const N: usize> std::ops::IndexMut<usize> for Blade<T, G, N> {
    /// The place of the coefficient at `index`, which must be in bounds. What
    /// is written there is the only thing that changes.
    fn index_mut(&mut self, index: usize) -> (output: &mut T)
        requires
            old(self).well_formed(),
            index < binomial_coefficient(N as nat, G as nat),
        ensures
            *output == old(self)@[index as int],
            final(self)@ == old(self)@.update(index as int, *final(output)),
            final(self).well_formed(),
    {
        &mut self.coefficients[index]
    }
}

impl<T: Coefficient, const N: usize> Default for Vector<T, N> {
    /// The vector whose coefficients are all the additive identity.
    fn default() -> (vector: Self)
        ensures
            vector.well_formed(),
            vector@.len() == N,
            forall|i: int| 0 <= i < N ==> vector@[i] == T::zero_value(),
    {
        Self::new()
    }
}

impl<T: Coefficient, const N: usize> Vector<T, N> {
    /// Makes the vector of `N` coefficients that are all the additive
    /// identity.
    pub fn new() -> (vector: Self)
        ensures
            vector.well_formed(),
            vector@.len() == N,
            forall|i: int| 0 <= i < N ==> vector@[i] == T::zero_value(),
    {
        proof {
            lemma_binomial_one(N as nat);
        }
        Self::zero()
    }
}

impl<T: Copy> Vector<T, 3> {
    /// The first coefficient.
    pub fn x(&self) -> (value: T)
        requires
            self.well_formed(),
        ensures
            value == self@[0],
    {
        proof {
            lemma_binomial_one(3);
        }
        self.coefficients[0]
    }

    /// The second coefficient.
    pub fn y(&self) -> (value: T)
        requires
            self.well_formed(),
        ensures
            value == self@[1],
    {
        proof {
            lemma_binomial_one(3);
        }
        self.coefficients[1]
    }

    /// The third coefficient.
    pub fn z(&self) -> (value: T)
        requires
            self.well_formed(),
        ensures
            value == self@[2],
    {
        proof {
            lemma_binomial_one(3);
        }
        self.coefficients[2]
    }

    /// Replaces the first coefficient.
    pub fn set_x(&mut self, x: T)
        requires
            old(self).well_formed(),
        ensures
            final(self).well_formed(),
            final(self)@ == old(self)@.update(0, x),
    {
        proof {
            lemma_binomial_one(3);
        }
        self.coefficients[0] = x;
    }

    /// Replaces the second coefficient.
    pub fn set_y(&mut self, y: T)
        requires
            old(self).well_formed(),
        ensures
            final(self).well_formed(),
            final(self)@ == old(self)@.update(1, y),
    {
        proof {
            lemma_binomial_one(3);
        }
        self.coefficients[1] = y;
    }

    /// Replaces the third coefficient.
    pub fn set_z(&mut self, z: T)
        requires
            old(self).well_formed(),
        ensures
            final(self).well_formed(),
            final(self)@ == old(self)@.update(2, z),
    {
        proof {
            lemma_binomial_one(3);
        }
        self.coefficients[2] = z;
    }
}

} // verus!
