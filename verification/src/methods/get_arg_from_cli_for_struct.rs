//! `from_cli_<field>` getters of a struct in the current derive.

use vstd::prelude::*;
use crate::model::{DeriveInput, Field};
use crate::error::DeriveError;
use crate::cli_args::all_named;
use crate::context::context_ok;
use crate::from_cli::{GetArgFn, from_cli_arg_fns, from_cli_arg_spec, getter_views};

verus! {

/// The getters of the fields that hold no subcommand and are not marked
/// `skip_default_from_cli`: each takes the value from the command line or prompts for it;
/// where the prompt is left without a value, a field that is not an `Option` fails with an
/// error (`WhenPromptLeft::Fail`) and an `Option` field gets `None`.
pub fn from_cli_arg(ast: &DeriveInput, fields: &Vec<Field>) -> (res: Result<Vec<GetArgFn>, DeriveError>)
    requires
        context_ok(*ast),
        all_named(fields@),
    ensures
        from_cli_arg_spec(*ast, fields@) == match res {
            Ok(v) => Ok(getter_views(v@)),
            Err(e) => Err(e),
        },
{
    from_cli_arg_fns(ast, fields)
}

} // verus!
