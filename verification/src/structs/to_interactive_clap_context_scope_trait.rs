//! `interactive_clap::ToInteractiveClapContextScope` for a struct.

use vstd::prelude::*;
use crate::model::{DeriveInput, Field};
use crate::cli_args::all_named;
use crate::scope::{StructScope, scope_fields, scope_fields_spec, scope_name, scope_name_spec,
    scope_views};
use crate::text::copy_str;

verus! {

/// `pub struct InteractiveClapContextScopeFor<Name> { pub <field>: <type>, .. }` over the
/// fields without a subcommand and without subargs, and its trait impl.
pub fn token_stream(ast: &DeriveInput, fields: &Vec<Field>) -> (res: StructScope)
    requires
        all_named(fields@),
    ensures
        res.name@ == ast.ident@,
        res.scope_name@ == scope_name_spec(ast.ident@),
        scope_views(res.fields@) == scope_fields_spec(fields@, true),
{
    let fs = scope_fields(fields, true);
    StructScope { name: copy_str(ast.ident.as_str()), scope_name: scope_name(ast.ident.as_str()), fields: fs }
}

} // verus!
