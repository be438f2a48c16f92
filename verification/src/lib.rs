//! A constant-product exchange between two assets held in pool vaults.
//!
//! The crate prices a swap, enforces the caller's minimum output and moves
//! custody of both assets between the caller and the pool. Every function is
//! stated over mathematical models and proved against them.

pub mod address;
pub mod curve;
pub mod custody;
pub mod errors;
pub mod state;
pub mod swap;
