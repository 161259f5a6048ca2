//! Laws of multivectors.
//!
//! Each law is stated over the tables of coefficients that the operations of
//! [`Multivector`] are specified by, and holds for every type of coefficient:
//! it is proved from the laws that [`Coefficient`] demands of its
//! implementations.

use crate::coefficient::Coefficient;
use crate::mask::{grade_of, lemma_grade_within_dimension};
use crate::multivector::{
    can_add_tables, can_sub_tables, difference_of_tables, grade_part, is_homogeneous_table,
    is_present, sum_of_tables, zero_table, Multivector,
};
use vstd::arithmetic::power2::pow2;
use vstd::prelude::*;

verus! {

/// Addition of multivectors is commutative: two multivectors can be added in
/// either order or in neither, and the two sums are the same table.
pub proof fn lemma_add_commutes<T: Coefficient, const N: usize, const G: usize>(
    a: Multivector<T, N, G>,
    b: Multivector<T, N, G>,
)
    requires
        a.well_formed(),
        b.well_formed(),
    ensures
        can_add_tables(a@, b@) == can_add_tables(b@, a@),
        can_add_tables(a@, b@) ==> sum_of_tables(a@, b@) == sum_of_tables(b@, a@),
{
    assert forall|mask: int| 0 <= mask < a@.len() implies a@[mask].can_add(b@[mask])
        == b@[mask].can_add(a@[mask]) && (a@[mask].can_add(b@[mask]) ==> a@[mask].sum(b@[mask])
        == b@[mask].sum(a@[mask])) by {
        T::lemma_sum_commutes(a@[mask], b@[mask]);
    }
    if can_add_tables(a@, b@) {
        assert(sum_of_tables(a@, b@) =~= sum_of_tables(b@, a@));
    }
}

/// Addition of multivectors is associative wherever both groupings can be
/// taken.
pub proof fn lemma_add_associates<T: Coefficient, const N: usize, const G: usize>(
    a: Multivector<T, N, G>,
    b: Multivector<T, N, G>,
    c: Multivector<T, N, G>,
)
    requires
        a.well_formed(),
        b.well_formed(),
        c.well_formed(),
        can_add_tables(a@, b@),
        can_add_tables(sum_of_tables(a@, b@), c@),
        can_add_tables(b@, c@),
        can_add_tables(a@, sum_of_tables(b@, c@)),
    ensures
        sum_of_tables(sum_of_tables(a@, b@), c@) == sum_of_tables(a@, sum_of_tables(b@, c@)),
{
    let left = sum_of_tables(a@, b@);
    let right = sum_of_tables(b@, c@);
    assert forall|mask: int| 0 <= mask < a@.len() implies left[mask].sum(c@[mask])
        == a@[mask].sum(right[mask]) by {
        assert(a@[mask].can_add(b@[mask]));
        assert(left[mask].can_add(c@[mask]));
        assert(b@[mask].can_add(c@[mask]));
        assert(a@[mask].can_add(right[mask]));
        T::lemma_sum_associates(a@[mask], b@[mask], c@[mask]);
    }
    assert(sum_of_tables(left, c@) =~= sum_of_tables(a@, right));
}

/// The zero multivector can be added on either side of any multivector and
/// changes nothing.
pub proof fn lemma_add_zero<T: Coefficient, const N: usize, const G: usize>(
    a: Multivector<T, N, G>,
)
    requires
        a.well_formed(),
    ensures
        can_add_tables(a@, zero_table::<T>(pow2(N as nat))),
        sum_of_tables(a@, zero_table::<T>(pow2(N as nat))) == a@,
        can_add_tables(zero_table::<T>(pow2(N as nat)), a@),
        sum_of_tables(zero_table::<T>(pow2(N as nat)), a@) == a@,
{
    let zero = zero_table::<T>(pow2(N as nat));
    assert forall|mask: int| 0 <= mask < a@.len() implies (#[trigger] a@[mask]).can_add(
        zero[mask],
    ) && a@[mask].sum(zero[mask]) == a@[mask] && (#[trigger] zero[mask]).can_add(a@[mask])
        && zero[mask].sum(a@[mask]) == a@[mask] by {
        T::lemma_zero_is_neutral(a@[mask]);
    }
    assert(sum_of_tables(a@, zero) =~= a@);
    assert(sum_of_tables(zero, a@) =~= a@);
}

/// Taking away the multivector that was added gives back the start, exactly.
pub proof fn lemma_sub_undoes_add<T: Coefficient, const N: usize, const G: usize>(
    a: Multivector<T, N, G>,
    b: Multivector<T, N, G>,
)
    requires
        a.well_formed(),
        b.well_formed(),
        can_add_tables(a@, b@),
    ensures
        can_sub_tables(sum_of_tables(a@, b@), b@),
        difference_of_tables(sum_of_tables(a@, b@), b@) == a@,
{
    let total = sum_of_tables(a@, b@);
    assert forall|mask: int| 0 <= mask < a@.len() implies (#[trigger] total[mask]).can_sub(
        b@[mask],
    ) && total[mask].difference(b@[mask]) == a@[mask] by {
        assert(a@[mask].can_add(b@[mask]));
        T::lemma_difference_undoes_sum(a@[mask], b@[mask]);
    }
    assert(difference_of_tables(total, b@) =~= a@);
}

/// The sum of the parts of grade `0` to `count - 1` of `table`, added up in
/// that order onto the zero table.
pub open spec fn sum_of_grade_parts<T: Coefficient>(table: Seq<T>, count: nat) -> Seq<T>
    decreases count,
{
    if count == 0 {
        zero_table::<T>(table.len())
    } else {
        sum_of_tables(
            sum_of_grade_parts(table, (count - 1) as nat),
            grade_part(table, (count - 1) as nat),
        )
    }
}

/// Whether every addition that `sum_of_grade_parts` makes can be taken.
pub open spec fn can_sum_grade_parts<T: Coefficient>(table: Seq<T>, count: nat) -> bool
    decreases count,
{
    count == 0 || (can_sum_grade_parts(table, (count - 1) as nat) && can_add_tables(
        sum_of_grade_parts(table, (count - 1) as nat),
        grade_part(table, (count - 1) as nat),
    ))
}

/// Adding up the parts of the grades below `count` gives the slots of the
/// blades of those grades and leaves the additive identity in the others.
proof fn lemma_sum_of_grade_parts<T: Coefficient>(table: Seq<T>, count: nat)
    ensures
        can_sum_grade_parts(table, count),
        sum_of_grade_parts(table, count).len() == table.len(),
        forall|mask: int|
            0 <= mask < table.len() ==> #[trigger] sum_of_grade_parts(table, count)[mask] == if grade_of(
                mask as nat,
            ) < count {
                table[mask]
            } else {
                T::zero_value()
            },
    decreases count,
{
    if count > 0 {
        let below = (count - 1) as nat;
        lemma_sum_of_grade_parts(table, below);
        let so_far = sum_of_grade_parts(table, below);
        let part = grade_part(table, below);
        assert forall|mask: int| 0 <= mask < table.len() implies (#[trigger] so_far[mask]).can_add(
            part[mask],
        ) && so_far[mask].sum(part[mask]) == if grade_of(mask as nat) < count {
            table[mask]
        } else {
            T::zero_value()
        } by {
            T::lemma_zero_is_neutral(table[mask]);
            T::lemma_zero_is_neutral(T::zero_value());
        }
    }
}

/// Grade decomposition is a complete partition of the table: the parts of the
/// grades `0` to `N` of a multivector can be added up, and their sum is the
/// multivector.
pub proof fn lemma_grade_parts_sum_to_whole<T: Coefficient, const N: usize, const G: usize>(
    a: Multivector<T, N, G>,
)
    requires
        a.well_formed(),
    ensures
        can_sum_grade_parts(a@, (N + 1) as nat),
        sum_of_grade_parts(a@, (N + 1) as nat) == a@,
{
    let whole = sum_of_grade_parts(a@, (N + 1) as nat);
    lemma_sum_of_grade_parts(a@, (N + 1) as nat);
    assert forall|mask: int| 0 <= mask < a@.len() implies #[trigger] whole[mask] == a@[mask] by {
        lemma_grade_within_dimension(mask as nat, N as nat);
    }
    assert(whole =~= a@);
}

/// The zero multivector is homogeneous.
pub proof fn lemma_zero_is_homogeneous<T: Coefficient>(len: nat)
    ensures
        is_homogeneous_table(zero_table::<T>(len)),
{
}

/// A multivector that is a scalar and nothing else is homogeneous.
pub proof fn lemma_scalar_is_homogeneous<T: Coefficient>(len: nat, scalar: T)
    requires
        len > 0,
    ensures
        is_homogeneous_table(zero_table::<T>(len).update(0, scalar)),
{
    let table = zero_table::<T>(len).update(0, scalar);
    assert forall|first: int, second: int|
        is_present(table, first) && is_present(table, second) implies grade_of(first as nat)
        == grade_of(second as nat) by {
        assert(first == 0 && second == 0);
    }
}

/// The part of one grade of any multivector is homogeneous.
pub proof fn lemma_grade_part_is_homogeneous<T: Coefficient>(table: Seq<T>, k: nat)
    ensures
        is_homogeneous_table(grade_part(table, k)),
{
    let part = grade_part(table, k);
    assert forall|first: int, second: int|
        is_present(part, first) && is_present(part, second) implies grade_of(first as nat)
        == grade_of(second as nat) by {
        assert(grade_of(first as nat) == k);
        assert(grade_of(second as nat) == k);
    }
}

/// A multivector in which blades of two different grades are present is not
/// homogeneous.
pub proof fn lemma_two_grades_are_not_homogeneous<T: Coefficient>(
    table: Seq<T>,
    first: int,
    second: int,
)
    requires
        is_present(table, first),
        is_present(table, second),
        grade_of(first as nat) != grade_of(second as nat),
    ensures
        !is_homogeneous_table(table),
{
}

} // verus!
