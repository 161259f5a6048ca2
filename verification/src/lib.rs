//! Representation and grade algebra of geometric-algebra multivectors.

pub mod basis_blade;
pub mod blade;
pub mod blades;
pub mod coefficient;
pub mod combinatorics;
pub mod laws;
pub mod mask;
pub mod multivector;

pub use basis_blade::BasisBlade;
pub use blade::{Bivector, Blade, Trivector, Vector};
pub use blades::{
    Scalar, E1, E12, E123, E1234, E124, E13, E134, E14, E2, E23, E234, E24, E3, E34, E4,
};
pub use coefficient::Coefficient;
pub use combinatorics::binomial;
pub use multivector::Multivector;
