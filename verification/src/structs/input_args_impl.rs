//! The `impl <Name> { fn input_<field>(..) .. }` block of a struct: one prompt per field
//! that is read interactively, through `inquire::CustomType`.

use vstd::prelude::*;
use crate::model::{DeriveInput, Field};
use crate::cli_args::all_named;
use crate::context::context_ok;
use crate::input_args::{InputArgFn, InputArgFnView, InputVersion, input_views, struct_input_args,
    struct_input_args_spec};
use crate::text::copy_str;

verus! {

/// The impl block: the struct's name and its prompt functions, in field order.
#[derive(Debug)]
pub struct InputArgsImpl {
    pub name: String,
    pub fns: Vec<InputArgFn>,
}

/// `InputArgsImpl` as plain sequences.
pub struct InputArgsImplView {
    pub name: Seq<char>,
    pub fns: Seq<InputArgFnView>,
}

impl View for InputArgsImpl {
    type V = InputArgsImplView;

    open spec fn view(&self) -> InputArgsImplView {
        InputArgsImplView { name: self.name@, fns: input_views(self.fns@) }
    }
}

/// The prompts of the fields that hold no subcommand and are marked neither
/// `skip_default_input_arg` nor `flatten`: a field without attributes is prompted with its
/// name, one marked `skip_interactive_input` gets no prompt, any other is prompted with its
/// doc comments.
fn vec_fn_input_arg(ast: &DeriveInput, fields: &Vec<Field>) -> (res: Vec<InputArgFn>)
    requires
        context_ok(*ast),
        all_named(fields@),
    ensures
        input_views(res@) == struct_input_args_spec(*ast, fields@, InputVersion::Structs),
{
    struct_input_args(ast, fields, InputVersion::Structs)
}

/// The whole impl block for the struct `ast` with the fields `fields`.
pub fn token_stream(ast: &DeriveInput, fields: &Vec<Field>) -> (res: InputArgsImpl)
    requires
        context_ok(*ast),
        all_named(fields@),
    ensures
        res@.name == ast.ident@,
        res@.fns == struct_input_args_spec(*ast, fields@, InputVersion::Structs),
{
    let fns = vec_fn_input_arg(ast, fields);
    InputArgsImpl { name: copy_str(ast.ident.as_str()), fns }
}

} // verus!
