//! The `Cli...` struct derived from the input struct.

use vstd::prelude::*;
use crate::model::Field;
use crate::error::DeriveError;
use crate::cli_args::all_named;
use crate::cli_struct::{CliFieldPlan, CliFieldPlanView, cli_fields, cli_fields_spec, plan_views};
use crate::context::strings_view;
use crate::text::copy_str;

verus! {

/// The `Cli...` struct: `#[derive(Debug, Default, Clone, clap::Parser, ToCliArgs)]` with
/// one field per field of the input that is not skipped.
#[derive(Debug)]
pub struct CliVariantStruct {
    pub cli_name: String,
    pub fields: Vec<CliFieldPlan>,
}

/// The `Cli...` struct and the names of the skipped fields.
pub fn token_stream(name: &str, cli_name: &str, input_fields: &Vec<Field>) -> (res: Result<
    (CliVariantStruct, Vec<String>),
    DeriveError,
>)
    requires
        all_named(input_fields@),
    ensures
        cli_fields_spec(input_fields@, name@, true) == match res {
            Ok((s, sk)) => Ok((plan_views(s.fields@), strings_view(sk@))),
            Err(e) => Err(e),
        },
        res matches Ok((s, _)) ==> s.cli_name@ == cli_name@,
{
    let (fields, skip) = cli_fields(input_fields, name, true)?;
    Ok((CliVariantStruct { cli_name: copy_str(cli_name), fields }, skip))
}

} // verus!
