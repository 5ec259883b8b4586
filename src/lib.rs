//! A linear-elastic, static, two-dimensional finite-element solver over
//! constant-strain triangles: mesh editing with index-consistent node
//! removal, mesh validation, global stiffness assembly, and a Gauss-Seidel
//! solve under mixed displacement and force boundary conditions.
//!
//! The library is generic over its number type (`scalar::Scalar`). Each
//! arithmetic operation of that type has a spec function, and the contracts
//! state every computed value as the exact expression over those functions
//! that produces it; no algebraic law of the number type is assumed.

pub mod assembly;
pub mod demo;
pub mod element;
pub mod matrix;
pub mod model;
pub mod node;
pub mod scalar;
pub mod solver;
pub mod validate;
