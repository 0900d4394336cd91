//! `input_<field>` prompts of a struct in the current derive.

use vstd::prelude::*;
use crate::model::{DeriveInput, Field};
use crate::cli_args::all_named;
use crate::context::context_ok;
use crate::input_args::{InputArgFn, InputVersion, input_views, struct_input_args,
    struct_input_args_spec};

verus! {

/// The prompts of the fields that hold no subcommand and are not marked
/// `skip_default_input_arg`: a field without attributes is prompted with its name, one
/// marked `skip_interactive_input` gets no prompt, any other is prompted with its doc
/// comments.
pub fn vec_fn_input_arg(ast: &DeriveInput, fields: &Vec<Field>) -> (res: Vec<InputArgFn>)
    requires
        context_ok(*ast),
        all_named(fields@),
    ensures
        input_views(res@) == struct_input_args_spec(*ast, fields@, InputVersion::Methods),
{
    struct_input_args(ast, fields, InputVersion::Methods)
}

} // verus!
