//! Multivectors in dense storage.
//!
//! A multivector of an `N`-dimensional space is a linear combination of all
//! `2^N` basis blades of that space. It is held as a table of coefficients that
//! is indexed by the bitmask of the blade: slot `mask` holds the coefficient of
//! the blade that `mask` identifies, and slot 0 is the scalar part. Grades,
//! homogeneity and the list of blades present are all read off that table.

use crate::basis_blade::BasisBlade;
use crate::coefficient::Coefficient;
use crate::laws::{
    lemma_grade_part_is_homogeneous, lemma_scalar_is_homogeneous, lemma_zero_is_homogeneous,
};
use crate::mask::{grade_of, lemma_grade_at_most_min_dim, lemma_grade_within_dimension};
use vstd::arithmetic::power2::{lemma_pow2_pos, pow2};
use vstd::bits::{lemma_usize_pow2_no_overflow, lemma_usize_shl_is_mul};
use std::collections::HashSet;
use vstd::prelude::*;
use vstd::std_specs::hash::group_hash_axioms;
use vstd::std_specs::ops::{AddSpecImpl, SubSpecImpl};

verus! {

/// A multivector of `N` dimensions with coefficients of type `T`.
///
/// `G` names the highest grade of interest. It is informational: the table
/// covers all `2^N` blades whatever `G` is, and no operation looks at it.
pub struct Multivector<T: Coefficient, const N: usize, const G: usize> {
    coefficients: Vec<T>,
}

impl<T: Coefficient, const N: usize, const G: usize> View for Multivector<T, N, G> {
    type V = Seq<T>;

    /// The table of coefficients, indexed by mask.
    closed spec fn view(&self) -> Seq<T> {
        self.coefficients@
    }
}

/// The table of `len` slots that all hold the additive identity.
pub open spec fn zero_table<T: Coefficient>(len: nat) -> Seq<T> {
    Seq::new(len, |mask: int| T::zero_value())
}

/// Whether the blade identified by `mask` is present in `table`: it has a slot
/// and its coefficient is not the additive identity.
pub open spec fn is_present<T: Coefficient>(table: Seq<T>, mask: int) -> bool {
    0 <= mask < table.len() && table[mask] != T::zero_value()
}

/// The projection of `table` onto grade `k`: the slots of the blades of grade
/// `k` are kept and all others hold the additive identity.
pub open spec fn grade_part<T: Coefficient>(table: Seq<T>, k: nat) -> Seq<T> {
    Seq::new(
        table.len(),
        |mask: int|
            if grade_of(mask as nat) == k {
                table[mask]
            } else {
                T::zero_value()
            },
    )
}

/// Whether all blades present in `table` are of one grade. A table without
/// any blade is homogeneous.
pub open spec fn is_homogeneous_table<T: Coefficient>(table: Seq<T>) -> bool {
    forall|first: int, second: int|
        #![trigger is_present(table, first), is_present(table, second)]
        is_present(table, first) && is_present(table, second) ==> grade_of(first as nat)
            == grade_of(second as nat)
}

/// The grades of the blades present in `table`.
pub open spec fn present_grades<T: Coefficient>(table: Seq<T>) -> Set<usize> {
    grades_below(table, table.len() as int)
}

/// The grades of the blades present in `table` whose mask is below `bound`.
pub open spec fn grades_below<T: Coefficient>(table: Seq<T>, bound: int) -> Set<usize> {
    Set::new(
        |g: usize|
            exists|mask: int| #[trigger]
                is_present(table, mask) && mask < bound && grade_of(mask as nat) == g,
    )
}

/// Whether every slot of `left` can be added to the same slot of `right`.
pub open spec fn can_add_tables<T: Coefficient>(left: Seq<T>, right: Seq<T>) -> bool {
    forall|mask: int| 0 <= mask < left.len() ==> (#[trigger] left[mask]).can_add(right[mask])
}

/// The slot-by-slot sum of two tables of one length.
pub open spec fn sum_of_tables<T: Coefficient>(left: Seq<T>, right: Seq<T>) -> Seq<T> {
    Seq::new(left.len(), |mask: int| left[mask].sum(right[mask]))
}

/// Whether every slot of `right` can be taken away from the same slot of
/// `left`.
pub open spec fn can_sub_tables<T: Coefficient>(left: Seq<T>, right: Seq<T>) -> bool {
    forall|mask: int| 0 <= mask < left.len() ==> (#[trigger] left[mask]).can_sub(right[mask])
}

/// The slot-by-slot difference of two tables of one length.
pub open spec fn difference_of_tables<T: Coefficient>(left: Seq<T>, right: Seq<T>) -> Seq<T> {
    Seq::new(left.len(), |mask: int| left[mask].difference(right[mask]))
}

impl<T: Coefficient, const N: usize, const G: usize> Multivector<T, N, G> {
    /// The invariant of the type: there is exactly one slot for each of the
    /// `2^N` basis blades.
    pub open spec fn well_formed(&self) -> bool {
        self@.len() == pow2(N as nat)
    }

    /// Makes the multivector whose coefficients are all the additive identity.
    pub fn new() -> (zero: Self)
        requires
            N < usize::BITS,
        ensures
            zero.well_formed(),
            zero@ == zero_table::<T>(pow2(N as nat)),
            is_homogeneous_table(zero@),
    {
        proof {
            lemma_usize_pow2_no_overflow(N as nat);
            lemma_usize_shl_is_mul(1, N);
            lemma_zero_is_homogeneous::<T>(pow2(N as nat));
        }
        let size = 1usize << N;
        let mut coefficients: Vec<T> = Vec::new();
        let mut filled: usize = 0;
        while filled < size
            invariant
                filled <= size,
                coefficients@.len() == filled,
                forall|mask: int| 0 <= mask < filled ==> coefficients@[mask] == T::zero_value(),
            decreases size - filled,
        {
            coefficients.push(T::zero());
            filled = filled + 1;
        }
        Self { coefficients }
    }

    /// Makes the multivector that is the given scalar and nothing else.
    pub fn from_scalar(scalar: T) -> (lifted: Self)
        requires
            N < usize::BITS,
        ensures
            lifted.well_formed(),
            lifted@ == zero_table::<T>(pow2(N as nat)).update(0, scalar),
            is_homogeneous_table(lifted@),
    {
        let mut lifted = Self::new();
        proof {
            lemma_pow2_pos(N as nat);
            lemma_scalar_is_homogeneous::<T>(pow2(N as nat), scalar);
        }
        lifted.coefficients[0] = scalar;
        lifted
    }

    /// The coefficient of the blade identified by `BASIS`, which must be a
    /// blade of the space.
    pub fn get_coefficient<const BASIS: usize>(&self) -> (coeff: T)
        requires
            self.well_formed(),
            BASIS < pow2(N as nat),
        ensures
            coeff == self@[BASIS as int],
    {
        self.coefficients[BASIS]
    }

    /// Replaces the coefficient of the blade identified by `BASIS`, which must
    /// be a blade of the space. No other slot changes.
    pub fn set_coefficient<const BASIS: usize>(&mut self, coeff: T)
        requires
            old(self).well_formed(),
            BASIS < pow2(N as nat),
        ensures
            final(self).well_formed(),
            final(self)@ == old(self)@.update(BASIS as int, coeff),
    {
        self.coefficients[BASIS] = coeff;
    }

    /// Adds the coefficient of `blade` to the slot of its mask, which must be
    /// a blade of the space. No other slot changes.
    pub fn add_blade<const BASIS: usize>(&mut self, blade: BasisBlade<T, BASIS>)
        requires
            old(self).well_formed(),
            BASIS < pow2(N as nat),
            old(self)@[BASIS as int].can_add(blade.coefficient),
        ensures
            final(self).well_formed(),
            final(self)@ == old(self)@.update(
                BASIS as int,
                old(self)@[BASIS as int].sum(blade.coefficient),
            ),
    {
        let updated = self.coefficients[BASIS].plus(blade.coefficient);
        self.coefficients[BASIS] = updated;
    }

    /// The scalar part: the coefficient in slot 0, whatever else is present.
    pub fn scalar(&self) -> (coeff: T)
        requires
            self.well_formed(),
        ensures
            coeff == self@[0],
    {
        proof {
            lemma_pow2_pos(N as nat);
        }
        self.coefficients[0]
    }

    /// Lists the blades present, as pairs of mask and coefficient, by
    /// ascending mask: every slot whose coefficient is not the additive
    /// identity, and no other.
    pub fn non_zero_blades(&self) -> (blades: Vec<(usize, T)>)
        requires
            self.well_formed(),
        ensures
            forall|i: int, j: int| 0 <= i < j < blades.len() ==> blades[i].0 < blades[j].0,
            forall|i: int|
                0 <= i < blades.len() ==> is_present(self@, #[trigger] blades[i].0 as int)
                    && blades[i].1 == self@[blades[i].0 as int],
            forall|mask: int| #[trigger]
                is_present(self@, mask) ==> exists|i: int|
                    0 <= i < blades.len() && #[trigger] blades[i].0 == mask,
    {
        let mut blades: Vec<(usize, T)> = Vec::new();
        let mut mask: usize = 0;
        while mask < self.coefficients.len()
            invariant
                mask <= self.coefficients@.len(),
                forall|i: int, j: int| 0 <= i < j < blades.len() ==> blades[i].0 < blades[j].0,
                forall|i: int|
                    0 <= i < blades.len() ==> (#[trigger] blades[i].0) < mask && is_present(
                        self@,
                        blades[i].0 as int,
                    ) && blades[i].1 == self@[blades[i].0 as int],
                forall|seen: int| #[trigger]
                    is_present(self@, seen) && seen < mask ==> exists|i: int|
                        0 <= i < blades.len() && #[trigger] blades[i].0 == seen,
            decreases self.coefficients@.len() - mask,
        {
            let coeff = self.coefficients[mask];
            let ghost before = blades@;
            if !coeff.is_zero() {
                blades.push((mask, coeff));
                proof {
                    assert forall|seen: int| #[trigger]
                        is_present(self@, seen) && seen < mask + 1 implies exists|i: int|
                        0 <= i < blades.len() && #[trigger] blades[i].0 == seen by {
                        if seen == mask {
                            assert(blades[blades.len() - 1].0 == seen);
                        } else {
                            let i = choose|i: int|
                                0 <= i < before.len() && #[trigger] before[i].0 == seen;
                            assert(blades[i].0 == seen);
                        }
                    }
                }
            }
            mask = mask + 1;
        }
        blades
    }

    /// The highest grade among the blades present. Where no blade is present
    /// the answer is 0 by convention, as for a scalar.
    pub fn max_grade(&self) -> (highest: usize)
        requires
            self.well_formed(),
        ensures
            forall|mask: int| #[trigger]
                is_present(self@, mask) ==> grade_of(mask as nat) <= highest,
            (exists|mask: int| is_present(self@, mask)) ==> exists|mask: int| #[trigger]
                is_present(self@, mask) && grade_of(mask as nat) == highest,
            (forall|mask: int| !is_present(self@, mask)) ==> highest == 0,
            highest <= N,
    {
        let mut highest: usize = 0;
        let mut mask: usize = 0;
        let ghost mut witness: int = -1;
        while mask < self.coefficients.len()
            invariant
                mask <= self.coefficients@.len(),
                forall|seen: int| #[trigger]
                    is_present(self@, seen) && seen < mask ==> grade_of(seen as nat) <= highest,
                witness < mask,
                witness >= 0 ==> is_present(self@, witness) && grade_of(witness as nat)
                    == highest,
                witness < 0 ==> highest == 0 && forall|seen: int|
                    seen < mask ==> !is_present(self@, seen),
                self.well_formed(),
                highest <= N,
            decreases self.coefficients@.len() - mask,
        {
            if !self.coefficients[mask].is_zero() {
                let g = crate::mask::grade(mask);
                proof {
                    lemma_grade_within_dimension(mask as nat, N as nat);
                }
                if g > highest {
                    highest = g;
                    proof {
                        witness = mask as int;
                    }
                } else {
                    proof {
                        if witness < 0 {
                            witness = mask as int;
                        }
                    }
                }
            }
            mask = mask + 1;
        }
        highest
    }

    /// Tells whether the multivector is homogeneous: whether the set of the
    /// grades of the blades present has at most one member. The zero
    /// multivector and every multivector of a single grade are homogeneous.
    pub fn is_homogeneous(&self) -> (single: bool)
        requires
            self.well_formed(),
        ensures
            single == (present_grades(self@).len() <= 1),
            single == is_homogeneous_table(self@),
    {
        broadcast use group_hash_axioms;

        let mut grades: HashSet<usize> = HashSet::new();
        let mut mask: usize = 0;
        proof {
            assert(grades@ =~= grades_below(self@, 0));
        }
        while mask < self.coefficients.len()
            invariant
                mask <= self.coefficients@.len(),
                grades@ == grades_below(self@, mask as int),
            decreases self.coefficients@.len() - mask,
        {
            if !self.coefficients[mask].is_zero() {
                let g = crate::mask::grade(mask);
                grades.insert(g);
                proof {
                    assert(is_present(self@, mask as int));
                    assert(grades@ =~= grades_below(self@, mask + 1));
                }
            } else {
                proof {
                    assert(grades@ =~= grades_below(self@, mask + 1));
                }
            }
            mask = mask + 1;
        }
        proof {
            lemma_homogeneous_by_cardinality(self@);
        }
        grades.len() <= 1
    }

    /// The part of grade `k`: a new multivector that has the coefficients of
    /// the blades of grade `k` and the additive identity everywhere else.
    pub fn grade(&self, k: usize) -> (part: Self)
        requires
            self.well_formed(),
        ensures
            part.well_formed(),
            part@ == grade_part(self@, k as nat),
            is_homogeneous_table(part@),
    {
        proof {
            lemma_grade_part_is_homogeneous(self@, k as nat);
        }
        let size = self.coefficients.len();
        let mut coefficients: Vec<T> = Vec::new();
        let mut mask: usize = 0;
        while mask < size
            invariant
                size == self.coefficients@.len(),
                mask <= size,
                coefficients@.len() == mask,
                forall|seen: int|
                    0 <= seen < mask ==> coefficients@[seen] == grade_part(self@, k as nat)[seen],
            decreases size - mask,
        {
            if crate::mask::grade(mask) == k {
                coefficients.push(self.coefficients[mask]);
            } else {
                coefficients.push(T::zero());
            }
            mask = mask + 1;
        }
        Self { coefficients }
    }
}

impl<T: Coefficient, const N: usize, const G: usize> Default for Multivector<T, N, G> {
    /// The zero multivector, as `new` makes it. A space of so many dimensions
    /// that a machine word cannot count its blades has no multivector: there
    /// the table is left empty, and no operation accepts it.
    fn default() -> (zero: Self)
        ensures
            N < usize::BITS ==> zero.well_formed() && zero@ == zero_table::<T>(pow2(N as nat)),
            N >= usize::BITS ==> zero@.len() == 0,
    {
        if N < usize::BITS as usize {
            Self::new()
        } else {
            Self { coefficients: Vec::new() }
        }
    }
}

impl<T: Coefficient, const N: usize, const G: usize> AddSpecImpl for Multivector<T, N, G> {
    /// Two multivectors may hold the same table and still be told apart by
    /// their storage, so the sum is specified by its table, in `add`, and not
    /// through `add_spec`.
    open spec fn obeys_add_spec() -> bool {
        false
    }

    /// Two multivectors can be added where every pair of slots can.
    open spec fn add_req(self, rhs: Self) -> bool {
        self.well_formed() && rhs.well_formed() && can_add_tables(self@, rhs@)
    }

    /// Some multivector whose table is the slot-by-slot sum.
    open spec fn add_spec(self, rhs: Self) -> Self {
        choose|total: Self| total.well_formed() && total@ == sum_of_tables(self@, rhs@)
    }
}

impl<T: Coefficient, const N: usize, const G: usize> std::ops::Add for Multivector<T, N, G> {
    type Output = Self;

    /// Adds two multivectors slot by slot.
    fn add(self, rhs: Self) -> (total: Self)
        ensures
            total.well_formed(),
            total@ == sum_of_tables(self@, rhs@),
    {
        let mut total = self;
        let size = total.coefficients.len();
        let mut mask: usize = 0;
        while mask < size
            invariant
                size == self.coefficients@.len(),
                size == rhs.coefficients@.len(),
                size == total.coefficients@.len(),
                mask <= size,
                can_add_tables(self@, rhs@),
                forall|done: int|
                    0 <= done < mask ==> total.coefficients@[done] == self@[done].sum(rhs@[done]),
                forall|ahead: int| mask <= ahead < size ==> total.coefficients@[ahead] == self@[ahead],
            decreases size - mask,
        {
            let slot = total.coefficients[mask].plus(rhs.coefficients[mask]);
            total.coefficients[mask] = slot;
            mask = mask + 1;
        }
        total
    }
}

impl<T: Coefficient, const N: usize, const G: usize> SubSpecImpl for Multivector<T, N, G> {
    /// As for the sum, the difference is specified by its table, in `sub`.
    open spec fn obeys_sub_spec() -> bool {
        false
    }

    /// One multivector can be taken away from another where every slot can.
    open spec fn sub_req(self, rhs: Self) -> bool {
        self.well_formed() && rhs.well_formed() && can_sub_tables(self@, rhs@)
    }

    /// Some multivector whose table is the slot-by-slot difference.
    open spec fn sub_spec(self, rhs: Self) -> Self {
        choose|rest: Self| rest.well_formed() && rest@ == difference_of_tables(self@, rhs@)
    }
}

impl<T: Coefficient, const N: usize, const G: usize> std::ops::Sub for Multivector<T, N, G> {
    type Output = Self;

    /// Takes `rhs` away from `self` slot by slot.
    fn sub(self, rhs: Self) -> (rest: Self)
        ensures
            rest.well_formed(),
            rest@ == difference_of_tables(self@, rhs@),
    {
        let mut rest = self;
        let size = rest.coefficients.len();
        let mut mask: usize = 0;
        while mask < size
            invariant
                size == self.coefficients@.len(),
                size == rhs.coefficients@.len(),
                size == rest.coefficients@.len(),
                mask <= size,
                can_sub_tables(self@, rhs@),
                forall|done: int|
                    0 <= done < mask ==> rest.coefficients@[done] == self@[done].difference(
                        rhs@[done],
                    ),
                forall|ahead: int| mask <= ahead < size ==> rest.coefficients@[ahead] == self@[ahead],
            decreases size - mask,
        {
            let slot = rest.coefficients[mask].minus(rhs.coefficients[mask]);
            rest.coefficients[mask] = slot;
            mask = mask + 1;
        }
        rest
    }
}

/// The grades of the blades present form a finite set, and a table is
/// homogeneous exactly when that set has at most one member.
pub proof fn lemma_homogeneous_by_cardinality<T: Coefficient>(table: Seq<T>)
    requires
        table.len() <= usize::MAX,
    ensures
        present_grades(table).finite(),
        is_homogeneous_table(table) <==> present_grades(table).len() <= 1,
{
    let grades = present_grades(table);
    lemma_few_grades(table);
    if exists|mask: int| is_present(table, mask) {
        let first = choose|mask: int| is_present(table, mask);
        let g = grade_of(first as nat) as usize;
        lemma_grade_fits(first as usize);
        assert(grades.contains(g));
        if is_homogeneous_table(table) {
            assert(grades =~= set![g]) by {
                assert forall|other: usize| grades.contains(other) implies other == g by {
                    let mask = choose|mask: int| #[trigger]
                        is_present(table, mask) && mask < table.len() && grade_of(mask as nat)
                            == other;
                    assert(is_present(table, first) && is_present(table, mask));
                }
            }
        } else {
            let (one, two) = choose|one: int, two: int|
                #![trigger is_present(table, one), is_present(table, two)]
                is_present(table, one) && is_present(table, two) && grade_of(one as nat)
                    != grade_of(two as nat);
            lemma_grade_fits(one as usize);
            lemma_grade_fits(two as usize);
            let g1 = grade_of(one as nat) as usize;
            let g2 = grade_of(two as nat) as usize;
            assert(grades.contains(g1) && grades.contains(g2));
            let pair = set![g1, g2];
            assert(pair.len() == 2);
            vstd::set_lib::lemma_len_subset(pair, grades);
        }
    } else {
        assert(grades =~= Set::<usize>::empty());
    }
}

/// The grade of a mask that fits a machine word is at most the width of the
/// word.
proof fn lemma_grade_fits(mask: usize)
    ensures
        grade_of(mask as nat) <= usize::BITS,
{
    lemma_grade_at_most_min_dim(mask as nat);
    crate::mask::lemma_min_dim_of_word(mask);
}

/// The natural numbers below `bound` that fit a machine word are finitely
/// many.
proof fn lemma_finitely_many_below(bound: usize)
    ensures
        Set::new(|g: usize| g < bound).finite(),
    decreases bound,
{
    if bound == 0 {
        assert(Set::new(|g: usize| g < bound) =~= Set::<usize>::empty());
    } else {
        let below = (bound - 1) as usize;
        lemma_finitely_many_below(below);
        assert(Set::new(|g: usize| g < bound) =~= Set::new(|g: usize| g < below).insert(below));
    }
}

/// No table has more than finitely many grades present.
proof fn lemma_few_grades<T: Coefficient>(table: Seq<T>)
    requires
        table.len() <= usize::MAX,
    ensures
        present_grades(table).finite(),
{
    let all = Set::new(|g: usize| g < 65);
    lemma_finitely_many_below(65);
    assert(present_grades(table).subset_of(all)) by {
        assert forall|g: usize| present_grades(table).contains(g) implies all.contains(g) by {
            let mask = choose|mask: int| #[trigger]
                is_present(table, mask) && mask < table.len() && grade_of(mask as nat) == g;
            lemma_grade_fits(mask as usize);
        }
    }
    vstd::set_lib::lemma_set_subset_finite(all, present_grades(table));
}

} // verus!
