//! Names for the basis blades of spaces of up to four dimensions.

use crate::basis_blade::BasisBlade;
use vstd::prelude::*;

verus! {

/// The scalar, of grade 0.
pub type Scalar<T> = BasisBlade<T, 0>;

/// The first basis vector.
pub type E1<T> = BasisBlade<T, 0b001>;

/// The second basis vector.
pub type E2<T> = BasisBlade<T, 0b010>;

/// The third basis vector.
pub type E3<T> = BasisBlade<T, 0b100>;

/// The fourth basis vector.
pub type E4<T> = BasisBlade<T, 0b1000>;

/// The bivector of the first and second basis vectors.
pub type E12<T> = BasisBlade<T, 0b011>;

/// The bivector of the first and third basis vectors.
pub type E13<T> = BasisBlade<T, 0b101>;

/// The bivector of the second and third basis vectors.
pub type E23<T> = BasisBlade<T, 0b110>;

/// The bivector of the first and fourth basis vectors.
pub type E14<T> = BasisBlade<T, 0b1001>;

/// The bivector of the second and fourth basis vectors.
pub type E24<T> = BasisBlade<T, 0b1010>;

/// The bivector of the third and fourth basis vectors.
pub type E34<T> = BasisBlade<T, 0b1100>;

/// The trivector of the first three basis vectors.
pub type E123<T> = BasisBlade<T, 0b111>;

/// The trivector of the first, second and fourth basis vectors.
pub type E124<T> = BasisBlade<T, 0b1011>;

/// The trivector of the first, third and fourth basis vectors.
pub type E134<T> = BasisBlade<T, 0b1101>;

/// The trivector of the last three of four basis vectors.
pub type E234<T> = BasisBlade<T, 0b1110>;

/// The quadvector of all four basis vectors.
pub type E1234<T> = BasisBlade<T, 0b1111>;

} // verus!
