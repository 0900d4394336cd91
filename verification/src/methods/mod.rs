//! The per-item generators of the current derive that the top-level derive calls.

pub mod choose_variant;
pub mod from_cli_for_enum;
pub mod get_arg_from_cli_for_struct;
pub mod input_arg;
