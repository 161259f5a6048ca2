//! The numeric types that coefficients are made of.
//!
//! A blade or a multivector is generic in the type of its coefficients. What
//! it needs of that type is collected in [`Coefficient`]: a copyable value with
//! an additive identity, addition, subtraction and an exact test against the
//! identity. The machine integers implement it with their plain `+` and
//! `-`, so a sum or a difference must be representable to be taken.

use vstd::prelude::*;

verus! {

/// A numeric type fit for coefficients.
///
/// The specification functions give the meaning of the operations, the
/// executable ones compute it, and the proof functions are the laws that every
/// implementation proves: they are what the laws of multivectors rest on.
pub trait Coefficient: Copy {
    /// The additive identity.
    spec fn zero_value() -> Self;

    /// Whether the sum of `self` and `rhs` can be taken.
    spec fn can_add(self, rhs: Self) -> bool;

    /// The sum of `self` and `rhs`, meaningful where `can_add` holds.
    spec fn sum(self, rhs: Self) -> Self;

    /// Whether `rhs` can be taken away from `self`.
    spec fn can_sub(self, rhs: Self) -> bool;

    /// The difference of `self` and `rhs`, meaningful where `can_sub` holds.
    spec fn difference(self, rhs: Self) -> Self;

    /// Returns the additive identity.
    fn zero() -> (z: Self)
        ensures
            z == Self::zero_value(),
    ;

    /// Tells whether `self` is the additive identity. The test is exact: no
    /// tolerance is applied.
    fn is_zero(&self) -> (b: bool)
        ensures
            b == (*self == Self::zero_value()),
    ;

    /// Adds `rhs` to `self`.
    fn plus(self, rhs: Self) -> (r: Self)
        requires
            self.can_add(rhs),
        ensures
            r == self.sum(rhs),
    ;

    /// Takes `rhs` away from `self`.
    fn minus(self, rhs: Self) -> (r: Self)
        requires
            self.can_sub(rhs),
        ensures
            r == self.difference(rhs),
    ;

    /// Addition is commutative: either order can be taken or neither, and the
    /// sums agree.
    proof fn lemma_sum_commutes(a: Self, b: Self)
        ensures
            a.can_add(b) == b.can_add(a),
            a.can_add(b) ==> a.sum(b) == b.sum(a),
    ;

    /// Addition is associative wherever both groupings can be taken.
    proof fn lemma_sum_associates(a: Self, b: Self, c: Self)
        requires
            a.can_add(b),
            a.sum(b).can_add(c),
            b.can_add(c),
            a.can_add(b.sum(c)),
        ensures
            a.sum(b).sum(c) == a.sum(b.sum(c)),
    ;

    /// The additive identity can be added on either side of anything and
    /// changes nothing.
    proof fn lemma_zero_is_neutral(a: Self)
        ensures
            a.can_add(Self::zero_value()),
            a.sum(Self::zero_value()) == a,
            Self::zero_value().can_add(a),
            Self::zero_value().sum(a) == a,
    ;

    /// Taking away what was added gives back the start, exactly.
    proof fn lemma_difference_undoes_sum(a: Self, b: Self)
        requires
            a.can_add(b),
        ensures
            a.sum(b).can_sub(b),
            a.sum(b).difference(b) == a,
    ;
}

impl Coefficient for i8 {
    open spec fn zero_value() -> i8 {
        0i8
    }

    open spec fn can_add(self, rhs: i8) -> bool {
        i8::MIN <= self + rhs <= i8::MAX
    }

    open spec fn sum(self, rhs: i8) -> i8 {
        (self + rhs) as i8
    }

    open spec fn can_sub(self, rhs: i8) -> bool {
        i8::MIN <= self - rhs <= i8::MAX
    }

    open spec fn difference(self, rhs: i8) -> i8 {
        (self - rhs) as i8
    }

    fn zero() -> (z: i8) {
        0i8
    }

    fn is_zero(&self) -> (b: bool) {
        *self == 0i8
    }

    fn plus(self, rhs: i8) -> (r: i8) {
        self + rhs
    }

    fn minus(self, rhs: i8) -> (r: i8) {
        self - rhs
    }

    proof fn lemma_sum_commutes(a: i8, b: i8) {
    }

    proof fn lemma_sum_associates(a: i8, b: i8, c: i8) {
    }

    proof fn lemma_zero_is_neutral(a: i8) {
    }

    proof fn lemma_difference_undoes_sum(a: i8, b: i8) {
    }
}

impl Coefficient for i16 {
    open spec fn zero_value() -> i16 {
        0i16
    }

    open spec fn can_add(self, rhs: i16) -> bool {
        i16::MIN <= self + rhs <= i16::MAX
    }

    open spec fn sum(self, rhs: i16) -> i16 {
        (self + rhs) as i16
    }

    open spec fn can_sub(self, rhs: i16) -> bool {
        i16::MIN <= self - rhs <= i16::MAX
    }

    open spec fn difference(self, rhs: i16) -> i16 {
        (self - rhs) as i16
    }

    fn zero() -> (z: i16) {
        0i16
    }

    fn is_zero(&self) -> (b: bool) {
        *self == 0i16
    }

    fn plus(self, rhs: i16) -> (r: i16) {
        self + rhs
    }

    fn minus(self, rhs: i16) -> (r: i16) {
        self - rhs
    }

    proof fn lemma_sum_commutes(a: i16, b: i16) {
    }

    proof fn lemma_sum_associates(a: i16, b: i16, c: i16) {
    }

    proof fn lemma_zero_is_neutral(a: i16) {
    }

    proof fn lemma_difference_undoes_sum(a: i16, b: i16) {
    }
}

impl Coefficient for i32 {
    open spec fn zero_value() -> i32 {
        0i32
    }

    open spec fn can_add(self, rhs: i32) -> bool {
        i32::MIN <= self + rhs <= i32::MAX
    }

    open spec fn sum(self, rhs: i32) -> i32 {
        (self + rhs) as i32
    }

    open spec fn can_sub(self, rhs: i32) -> bool {
        i32::MIN <= self - rhs <= i32::MAX
    }

    open spec fn difference(self, rhs: i32) -> i32 {
        (self - rhs) as i32
    }

    fn zero() -> (z: i32) {
        0i32
    }

    fn is_zero(&self) -> (b: bool) {
        *self == 0i32
    }

    fn plus(self, rhs: i32) -> (r: i32) {
        self + rhs
    }

    fn minus(self, rhs: i32) -> (r: i32) {
        self - rhs
    }

    proof fn lemma_sum_commutes(a: i32, b: i32) {
    }

    proof fn lemma_sum_associates(a: i32, b: i32, c: i32) {
    }

    proof fn lemma_zero_is_neutral(a: i32) {
    }

    proof fn lemma_difference_undoes_sum(a: i32, b: i32) {
    }
}

impl Coefficient for i64 {
    open spec fn zero_value() -> i64 {
        0i64
    }

    open spec fn can_add(self, rhs: i64) -> bool {
        i64::MIN <= self + rhs <= i64::MAX
    }

    open spec fn sum(self, rhs: i64) -> i64 {
        (self + rhs) as i64
    }

    open spec fn can_sub(self, rhs: i64) -> bool {
        i64::MIN <= self - rhs <= i64::MAX
    }

    open spec fn difference(self, rhs: i64) -> i64 {
        (self - rhs) as i64
    }

    fn zero() -> (z: i64) {
        0i64
    }

    fn is_zero(&self) -> (b: bool) {
        *self == 0i64
    }

    fn plus(self, rhs: i64) -> (r: i64) {
        self + rhs
    }

    fn minus(self, rhs: i64) -> (r: i64) {
        self - rhs
    }

    proof fn lemma_sum_commutes(a: i64, b: i64) {
    }

    proof fn lemma_sum_associates(a: i64, b: i64, c: i64) {
    }

    proof fn lemma_zero_is_neutral(a: i64) {
    }

    proof fn lemma_difference_undoes_sum(a: i64, b: i64) {
    }
}

impl Coefficient for i128 {
    open spec fn zero_value() -> i128 {
        0i128
    }

    open spec fn can_add(self, rhs: i128) -> bool {
        i128::MIN <= self + rhs <= i128::MAX
    }

    open spec fn sum(self, rhs: i128) -> i128 {
        (self + rhs) as i128
    }

    open spec fn can_sub(self, rhs: i128) -> bool {
        i128::MIN <= self - rhs <= i128::MAX
    }

    open spec fn difference(self, rhs: i128) -> i128 {
        (self - rhs) as i128
    }

    fn zero() -> (z: i128) {
        0i128
    }

    fn is_zero(&self) -> (b: bool) {
        *self == 0i128
    }

    fn plus(self, rhs: i128) -> (r: i128) {
        self + rhs
    }

    fn minus(self, rhs: i128) -> (r: i128) {
        self - rhs
    }

    proof fn lemma_sum_commutes(a: i128, b: i128) {
    }

    proof fn lemma_sum_associates(a: i128, b: i128, c: i128) {
    }

    proof fn lemma_zero_is_neutral(a: i128) {
    }

    proof fn lemma_difference_undoes_sum(a: i128, b: i128) {
    }
}

impl Coefficient for isize {
    open spec fn zero_value() -> isize {
        0isize
    }

    open spec fn can_add(self, rhs: isize) -> bool {
        isize::MIN <= self + rhs <= isize::MAX
    }

    open spec fn sum(self, rhs: isize) -> isize {
        (self + rhs) as isize
    }

    open spec fn can_sub(self, rhs: isize) -> bool {
        isize::MIN <= self - rhs <= isize::MAX
    }

    open spec fn difference(self, rhs: isize) -> isize {
        (self - rhs) as isize
    }

    fn zero() -> (z: isize) {
        0isize
    }

    fn is_zero(&self) -> (b: bool) {
        *self == 0isize
    }

    fn plus(self, rhs: isize) -> (r: isize) {
        self + rhs
    }

    fn minus(self, rhs: isize) -> (r: isize) {
        self - rhs
    }

    proof fn lemma_sum_commutes(a: isize, b: isize) {
    }

    proof fn lemma_sum_associates(a: isize, b: isize, c: isize) {
    }

    proof fn lemma_zero_is_neutral(a: isize) {
    }

    proof fn lemma_difference_undoes_sum(a: isize, b: isize) {
    }
}

impl Coefficient for u8 {
    open spec fn zero_value() -> u8 {
        0u8
    }

    open spec fn can_add(self, rhs: u8) -> bool {
        u8::MIN <= self + rhs <= u8::MAX
    }

    open spec fn sum(self, rhs: u8) -> u8 {
        (self + rhs) as u8
    }

    open spec fn can_sub(self, rhs: u8) -> bool {
        u8::MIN <= self - rhs <= u8::MAX
    }

    open spec fn difference(self, rhs: u8) -> u8 {
        (self - rhs) as u8
    }

    fn zero() -> (z: u8) {
        0u8
    }

    fn is_zero(&self) -> (b: bool) {
        *self == 0u8
    }

    fn plus(self, rhs: u8) -> (r: u8) {
        self + rhs
    }

    fn minus(self, rhs: u8) -> (r: u8) {
        self - rhs
    }

    proof fn lemma_sum_commutes(a: u8, b: u8) {
    }

    proof fn lemma_sum_associates(a: u8, b: u8, c: u8) {
    }

    proof fn lemma_zero_is_neutral(a: u8) {
    }

    proof fn lemma_difference_undoes_sum(a: u8, b: u8) {
    }
}

impl Coefficient for u16 {
    open spec fn zero_value() -> u16 {
        0u16
    }

    open spec fn can_add(self, rhs: u16) -> bool {
        u16::MIN <= self + rhs <= u16::MAX
    }

    open spec fn sum(self, rhs: u16) -> u16 {
        (self + rhs) as u16
    }

    open spec fn can_sub(self, rhs: u16) -> bool {
        u16::MIN <= self - rhs <= u16::MAX
    }

    open spec fn difference(self, rhs: u16) -> u16 {
        (self - rhs) as u16
    }

    fn zero() -> (z: u16) {
        0u16
    }

    fn is_zero(&self) -> (b: bool) {
        *self == 0u16
    }

    fn plus(self, rhs: u16) -> (r: u16) {
        self + rhs
    }

    fn minus(self, rhs: u16) -> (r: u16) {
        self - rhs
    }

    proof fn lemma_sum_commutes(a: u16, b: u16) {
    }

    proof fn lemma_sum_associates(a: u16, b: u16, c: u16) {
    }

    proof fn lemma_zero_is_neutral(a: u16) {
    }

    proof fn lemma_difference_undoes_sum(a: u16, b: u16) {
    }
}

impl Coefficient for u32 {
    open spec fn zero_value() -> u32 {
        0u32
    }

    open spec fn can_add(self, rhs: u32) -> bool {
        u32::MIN <= self + rhs <= u32::MAX
    }

    open spec fn sum(self, rhs: u32) -> u32 {
        (self + rhs) as u32
    }

    open spec fn can_sub(self, rhs: u32) -> bool {
        u32::MIN <= self - rhs <= u32::MAX
    }

    open spec fn difference(self, rhs: u32) -> u32 {
        (self - rhs) as u32
    }

    fn zero() -> (z: u32) {
        0u32
    }

    fn is_zero(&self) -> (b: bool) {
        *self == 0u32
    }

    fn plus(self, rhs: u32) -> (r: u32) {
        self + rhs
    }

    fn minus(self, rhs: u32) -> (r: u32) {
        self - rhs
    }

    proof fn lemma_sum_commutes(a: u32, b: u32) {
    }

    proof fn lemma_sum_associates(a: u32, b: u32, c: u32) {
    }

    proof fn lemma_zero_is_neutral(a: u32) {
    }

    proof fn lemma_difference_undoes_sum(a: u32, b: u32) {
    }
}

impl Coefficient for u64 {
    open spec fn zero_value() -> u64 {
        0u64
    }

    open spec fn can_add(self, rhs: u64) -> bool {
        u64::MIN <= self + rhs <= u64::MAX
    }

    open spec fn sum(self, rhs: u64) -> u64 {
        (self + rhs) as u64
    }

    open spec fn can_sub(self, rhs: u64) -> bool {
        u64::MIN <= self - rhs <= u64::MAX
    }

    open spec fn difference(self, rhs: u64) -> u64 {
        (self - rhs) as u64
    }

    fn zero() -> (z: u64) {
        0u64
    }

    fn is_zero(&self) -> (b: bool) {
        *self == 0u64
    }

    fn plus(self, rhs: u64) -> (r: u64) {
        self + rhs
    }

    fn minus(self, rhs: u64) -> (r: u64) {
        self - rhs
    }

    proof fn lemma_sum_commutes(a: u64, b: u64) {
    }

    proof fn lemma_sum_associates(a: u64, b: u64, c: u64) {
    }

    proof fn lemma_zero_is_neutral(a: u64) {
    }

    proof fn lemma_difference_undoes_sum(a: u64, b: u64) {
    }
}

impl Coefficient for u128 {
    open spec fn zero_value() -> u128 {
        0u128
    }

    open spec fn can_add(self, rhs: u128) -> bool {
        u128::MIN <= self + rhs <= u128::MAX
    }

    open spec fn sum(self, rhs: u128) -> u128 {
        (self + rhs) as u128
    }

    open spec fn can_sub(self, rhs: u128) -> bool {
        u128::MIN <= self - rhs <= u128::MAX
    }

    open spec fn difference(self, rhs: u128) -> u128 {
        (self - rhs) as u128
    }

    fn zero() -> (z: u128) {
        0u128
    }

    fn is_zero(&self) -> (b: bool) {
        *self == 0u128
    }

    fn plus(self, rhs: u128) -> (r: u128) {
        self + rhs
    }

    fn minus(self, rhs: u128) -> (r: u128) {
        self - rhs
    }

    proof fn lemma_sum_commutes(a: u128, b: u128) {
    }

    proof fn lemma_sum_associates(a: u128, b: u128, c: u128) {
    }

    proof fn lemma_zero_is_neutral(a: u128) {
    }

    proof fn lemma_difference_undoes_sum(a: u128, b: u128) {
    }
}

impl Coefficient for usize {
    open spec fn zero_value() -> usize {
        0usize
    }

    open spec fn can_add(self, rhs: usize) -> bool {
        usize::MIN <= self + rhs <= usize::MAX
    }

    open spec fn sum(self, rhs: usize) -> usize {
        (self + rhs) as usize
    }

    open spec fn can_sub(self, rhs: usize) -> bool {
        usize::MIN <= self - rhs <= usize::MAX
    }

    open spec fn difference(self, rhs: usize) -> usize {
        (self - rhs) as usize
    }

    fn zero() -> (z: usize) {
        0usize
    }

    fn is_zero(&self) -> (b: bool) {
        *self == 0usize
    }

    fn plus(self, rhs: usize) -> (r: usize) {
        self + rhs
    }

    fn minus(self, rhs: usize) -> (r: usize) {
        self - rhs
    }

    proof fn lemma_sum_commutes(a: usize, b: usize) {
    }

    proof fn lemma_sum_associates(a: usize, b: usize, c: usize) {
    }

    proof fn lemma_zero_is_neutral(a: usize) {
    }

    proof fn lemma_difference_undoes_sum(a: usize, b: usize) {
    }
}

} // verus!
