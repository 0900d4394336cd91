//! `interactive_clap::ToCli` for a struct: the `Cli...` struct, a `clap::Parser` adapter, and
//! `impl From<Name> for CliName`.

use vstd::prelude::*;
use crate::model::Field;
use crate::error::DeriveError;
use crate::cli_args::all_named;
use crate::cli_struct::{CliFieldPlan, CliFieldPlanView, FieldConversion, FieldConversionView,
    cli_fields_spec, conversions_spec, plan_views, conversion_views};
use crate::context::strings_view;
use crate::text::copy_str;

pub mod cli_variant_struct;
pub mod clap_parser_trait_adapter;
pub mod from_trait;

verus! {

/// What `ToCli` is derived from: the names, the fields of the `Cli...` struct, and the
/// conversions of the struct's fields into it.
#[derive(Debug)]
pub struct ToCliPlan {
    pub name: String,
    pub cli_name: String,
    pub cli_fields: Vec<CliFieldPlan>,
    pub conversions: Vec<FieldConversion>,
}

/// `ToCliPlan` as plain sequences.
pub struct ToCliPlanView {
    pub name: Seq<char>,
    pub cli_name: Seq<char>,
    pub cli_fields: Seq<CliFieldPlanView>,
    pub conversions: Seq<FieldConversionView>,
}

impl View for ToCliPlan {
    type V = ToCliPlanView;

    open spec fn view(&self) -> ToCliPlanView {
        ToCliPlanView {
            name: self.name@,
            cli_name: self.cli_name@,
            cli_fields: plan_views(self.cli_fields@),
            conversions: conversion_views(self.conversions@),
        }
    }
}

/// The `Cli...` struct is made first; the conversions skip the fields it skipped.
pub open spec fn to_cli_spec(name: Seq<char>, cli_name: Seq<char>, fields: Seq<Field>) -> Result<
    ToCliPlanView,
    DeriveError,
> {
    match cli_fields_spec(fields, name, true) {
        Err(e) => Err(e),
        Ok((ps, sk)) => match conversions_spec(fields, sk, true) {
            Err(e) => Err(e),
            Ok(cs) => Ok(ToCliPlanView { name, cli_name, cli_fields: ps, conversions: cs }),
        },
    }
}

/// The whole `ToCli` derive for a struct named `name` with the `Cli...` struct `cli_name`.
pub fn token_stream(name: &str, cli_name: &str, input_fields: &Vec<Field>) -> (res: Result<
    ToCliPlan,
    DeriveError,
>)
    requires
        all_named(input_fields@),
    ensures
        to_cli_spec(name@, cli_name@, input_fields@) == match res {
            Ok(p) => Ok(p@),
            Err(e) => Err(e),
        },
{
    let (cli_struct, skip) = cli_variant_struct::token_stream(name, cli_name, input_fields)?;
    let conversions = from_trait::token_stream(name, cli_name, input_fields, &skip)?;
    Ok(ToCliPlan {
        name: copy_str(name),
        cli_name: cli_struct.cli_name,
        cli_fields: cli_struct.fields,
        conversions: conversions.conversions,
    })
}

} // verus!
