//! Resolution engine for hardware register descriptions.
//!
//! A description tree (peripherals, register clusters, registers and
//! bitfields, with array repetition and `derivedFrom` inheritance) is turned
//! into a fully resolved model: every entity built by value, inheritance
//! resolved against what was built before, arrays expanded, masks and width
//! classes computed, and every register address mapped to the symbolic paths
//! that reach it.
//!
//! The functions of this crate are verified: the contract of each states
//! what it returns over the mathematical view of its arguments. The calls
//! into other crates stand behind small wrappers; the contract of a wrapper
//! is believed, not proved, and its doc comment says what it claims.
pub mod addresses;
pub mod aurix;
pub mod builder;
pub mod error;
pub mod fields;
pub mod ident;
pub mod interrupts;
pub mod ir;
pub mod laws;
pub mod options;
pub mod ordered;
pub mod register;
pub mod render;
pub mod svd;
pub mod text;
pub mod visitor;
pub mod wellformed;
