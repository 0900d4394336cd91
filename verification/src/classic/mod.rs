//! The classic form of the derive: `from_cli` returns the items themselves, and the
//! prompts use `dialoguer`.

pub mod from_cli_for_struct;
pub mod choose_variant;
pub mod from_cli_for_enum;
pub mod get_arg_from_cli_for_struct;
pub mod input_arg;
