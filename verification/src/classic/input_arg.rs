//! `input_<field>` prompts in the classic derive, with `dialoguer`.

use vstd::prelude::*;
use crate::model::{DeriveInput, Field};
use crate::cli_args::all_named;
use crate::context::context_ok;
use crate::input_args::{InputArgFn, InputVersion, input_views, struct_input_args,
    struct_input_args_spec};

verus! {

/// The prompts of the fields without subcommand and without `skip_default_input_arg`; none
/// when the struct is marked `skip_default_from_cli`. A field without attributes is
/// prompted with an empty text, another with its joined doc comments.
pub fn vec_input_arg(ast: &DeriveInput, fields: &Vec<Field>) -> (res: Vec<InputArgFn>)
    requires
        context_ok(*ast),
        all_named(fields@),
    ensures
        input_views(res@) == struct_input_args_spec(*ast, fields@, InputVersion::Classic),
{
    struct_input_args(ast, fields, InputVersion::Classic)
}

} // verus!
