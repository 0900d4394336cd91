//! `from_cli_<field>` getters in the classic derive.

use vstd::prelude::*;
use crate::model::{DeriveInput, Field};
use crate::error::DeriveError;
use crate::cli_args::all_named;
use crate::context::context_ok;
use crate::from_cli::{GetArgFn, getter_views, classic_from_cli_arg_fns, classic_from_cli_arg_spec};

verus! {

/// The getters of the fields without subcommand that are not marked
/// `skip_default_from_cli`; none when the struct is marked so.
pub fn from_cli_arg(ast: &DeriveInput, fields: &Vec<Field>) -> (res: Result<Vec<GetArgFn>, DeriveError>)
    requires
        context_ok(*ast),
        all_named(fields@),
    ensures
        classic_from_cli_arg_spec(*ast, fields@) == match res {
            Ok(v) => Ok(getter_views(v@)),
            Err(e) => Err(e),
        },
{
    classic_from_cli_arg_fns(ast, fields)
}

} // verus!
