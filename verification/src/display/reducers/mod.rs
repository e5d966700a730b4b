//! The specialised reducers.
pub mod cargo_test;
pub mod pytest;
