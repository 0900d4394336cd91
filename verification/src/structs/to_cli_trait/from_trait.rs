//! `impl From<Name> for CliName`.

use vstd::prelude::*;
use crate::model::Field;
use crate::error::DeriveError;
use crate::cli_args::all_named;
use crate::cli_struct::{FieldConversion, conversions, conversions_spec, conversion_views};
use crate::context::strings_view;
use crate::text::copy_str;

verus! {

/// `impl From<name> for cli_name`, with the conversion of each field that is not skipped.
#[derive(Debug)]
pub struct FromImpl {
    pub name: String,
    pub cli_name: String,
    pub conversions: Vec<FieldConversion>,
}

/// The conversion impl; the fields named in `ident_skip_field_vec` are left out.
pub fn token_stream(
    name: &str,
    cli_name: &str,
    input_fields: &Vec<Field>,
    ident_skip_field_vec: &Vec<String>,
) -> (res: Result<FromImpl, DeriveError>)
    requires
        all_named(input_fields@),
    ensures
        conversions_spec(input_fields@, strings_view(ident_skip_field_vec@), true) == match res {
            Ok(p) => Ok(conversion_views(p.conversions@)),
            Err(e) => Err(e),
        },
        res matches Ok(p) ==> p.name@ == name@ && p.cli_name@ == cli_name@,
{
    let cs = conversions(input_fields, ident_skip_field_vec, true)?;
    Ok(FromImpl { name: copy_str(name), cli_name: copy_str(cli_name), conversions: cs })
}

} // verus!
