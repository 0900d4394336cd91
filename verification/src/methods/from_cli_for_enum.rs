//! `impl interactive_clap::FromCli for <Name>` of an enum in the current derive.

use vstd::prelude::*;
use crate::model::{DeriveInput, Variant};
use crate::error::DeriveError;
use crate::context::context_ok;
use crate::from_cli::{FromCliEnumPlan, enum_outcome_is, from_cli_enum, from_cli_enum_spec};

verus! {

/// `FromCli` for an enum with the variants `variants`: nothing when the enum is marked
/// `skip_default_from_cli`; otherwise one arm per variant, passing the content on through
/// `<Name>Context` where an output context is given, and `choose_variant` when no variant
/// came from the command line.
pub fn from_cli_for_enum(ast: &DeriveInput, variants: &Vec<Variant>) -> (res: Result<
    Option<FromCliEnumPlan>,
    DeriveError,
>)
    requires
        context_ok(*ast),
        !(from_cli_enum_spec(*ast, variants@) is Panics),
    ensures
        enum_outcome_is(from_cli_enum_spec(*ast, variants@), res),
{
    from_cli_enum(ast, variants)
}

} // verus!
