//! `from_cli` for an enum in the classic derive.

use vstd::prelude::*;
use crate::model::{DeriveInput, Variant};
use crate::error::DeriveError;
use crate::context::context_ok;
use crate::from_cli::{FromCliEnumPlan, enum_outcome_is, from_cli_enum, from_cli_enum_spec};

verus! {

/// `from_cli` for an enum with the variants `variants`: the arms dispatch each variant to
/// `from_cli` of its content, through `<Name>Context` when an output context is given.
pub fn from_cli_for_enum(ast: &DeriveInput, variants: &Vec<Variant>) -> (res: Result<
    Option<FromCliEnumPlan>,
    DeriveError,
>)
    requires
        context_ok(*ast),
        !(from_cli_enum_spec(*ast, variants@) is Panics),
    ensures
        enum_outcome_is(from_cli_enum_spec(*ast, variants@), res),
{
    from_cli_enum(ast, variants)
}

} // verus!
