//! The parts of the `InteractiveClap` derive for a struct, each generating one item or impl.

pub mod to_cli_trait;
pub mod clap_for_named_arg_enum;
pub mod to_interactive_clap_context_scope_trait;
pub mod from_cli_trait;
pub mod input_args_impl;
