//! Generators shared by the struct and enum parts of the current derive.

pub mod choose_variant;
