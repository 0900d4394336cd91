//! `interactive_clap::FromCli` for a struct (current derive).

use vstd::prelude::*;
use crate::model::{DeriveInput, Field};
use crate::error::{DeriveError, Outcome, none_iff_panics};
use crate::cli_args::all_named;
use crate::context::{ContextDir, ContextDirView, InteractiveClapAttrsContext, context_ok,
    context_spec, copy_strings, input_context_spec, opt_strings_view, strings_view};
use crate::field_attrs::{all_tokens, ic_tokens, is_field_with_subargs, is_field_with_subcommand,
    is_skip_interactive_input};
use crate::from_cli::{NamedArgValue, NamedArgValueView, NestedValue, NestedValueView,
    named_arg_value, named_arg_value_spec, nested_value, nested_value_spec, opt_named_view,
    opt_nested_view};
use crate::scope::{ScopeField, ScopeFieldView, scope_fields, scope_fields_spec, scope_name,
    scope_name_spec, scope_views};
use crate::tokens::{Probe, any_group_passes, any_text_passes};
use crate::text::{copy_str, seq_starts_with, str_eq, str_starts_with};

verus! {

/// How a field of the struct gets its value before the nested ones.
#[derive(Debug)]
pub enum FieldValue {
    /// `let <field> = clap_variant.<field>.clone();` (a flag, or no prompt for the field).
    Copied(String),
    /// Prompt when unset, keeping `None` when the prompt is left: an `Option` field.
    OptionalPrompt(String),
    /// Prompt when unset; leaving the prompt cancels.
    RequiredPrompt(String),
}

/// `FieldValue` as plain sequences.
pub enum FieldValueView {
    Copied(Seq<char>),
    OptionalPrompt(Seq<char>),
    RequiredPrompt(Seq<char>),
}

impl View for FieldValue {
    type V = FieldValueView;

    open spec fn view(&self) -> FieldValueView {
        match self {
            FieldValue::Copied(f) => FieldValueView::Copied(f@),
            FieldValue::OptionalPrompt(f) => FieldValueView::OptionalPrompt(f@),
            FieldValue::RequiredPrompt(f) => FieldValueView::RequiredPrompt(f@),
        }
    }
}

/// How a field gets its value: a `bool` or a field without prompt is copied; an `Option`
/// field is prompted for optionally; another field without subcommand or subargs is
/// prompted for; subcommand and subargs fields get theirs later.
pub open spec fn field_value_spec(f: Field) -> Option<FieldValueView> {
    let id = f.ident->0@;
    if f.ty.text@ == "bool"@ || any_group_passes(
        ic_tokens(f),
        Probe::Either("skip_interactive_input", "long_vec_multiple_opt"),
    ) {
        Some(FieldValueView::Copied(id))
    } else if seq_starts_with(f.ty.text@, "Option <"@) {
        Some(FieldValueView::OptionalPrompt(id))
    } else if !any_group_passes(all_tokens(f), Probe::Either("named_arg", "subcommand"))
        && !any_text_passes(all_tokens(f), Probe::Contains("subargs")) {
        Some(FieldValueView::RequiredPrompt(id))
    } else {
        None
    }
}

/// How a field gets its value, when it gets one before the nested fields.
pub fn fields_value(field: &Field) -> (res: Option<FieldValue>)
    requires
        field.ident is Some,
    ensures
        match res {
            Some(v) => field_value_spec(*field) == Some(v@),
            None => field_value_spec(*field) is None,
        },
{
    let id = match &field.ident {
        Some(s) => copy_str(s.as_str()),
        None => String::new(),
    };
    if str_eq(field.ty.text.as_str(), "bool") || is_skip_interactive_input(field) {
        Some(FieldValue::Copied(id))
    } else if str_starts_with(field.ty.text.as_str(), "Option <") {
        Some(FieldValue::OptionalPrompt(id))
    } else if !is_field_with_subcommand(field) && !is_field_with_subargs(field) {
        Some(FieldValue::RequiredPrompt(id))
    } else {
        None
    }
}

/// The values of the fields, in field order.
pub open spec fn values_spec(fields: Seq<Field>) -> Seq<FieldValueView>
    decreases fields.len(),
{
    if fields.len() == 0 {
        seq![]
    } else {
        values_spec(fields.drop_last()) + match field_value_spec(fields.last()) {
            Some(v) => seq![v],
            None => seq![],
        }
    }
}

/// The views of a run of field values.
pub open spec fn value_views(v: Seq<FieldValue>) -> Seq<FieldValueView> {
    v.map_values(|x: FieldValue| x@)
}

fn values(fields: &Vec<Field>) -> (res: Vec<FieldValue>)
    requires
        all_named(fields@),
    ensures
        value_views(res@) == values_spec(fields@),
{
    let mut out: Vec<FieldValue> = Vec::new();
    let mut i: usize = 0;
    assert(value_views(out@) =~= Seq::<FieldValueView>::empty());
    while i < fields.len()
        invariant
            i <= fields.len(),
            all_named(fields@),
            value_views(out@) == values_spec(fields@.take(i as int)),
        decreases fields.len() - i,
    {
        assert(fields@.take(i + 1).drop_last() =~= fields@.take(i as int));
        assert(fields@[i as int].ident is Some);
        let ghost before = value_views(out@);
        match fields_value(&fields[i]) {
            Some(v) => {
                out.push(v);
                assert(value_views(out@) =~= before.push(out@.last()@));
            },
            None => {
                assert(before + Seq::<FieldValueView>::empty() =~= before);
            },
        }
        i = i + 1;
    }
    assert(fields@.take(fields.len() as int) =~= fields@);
    out
}

/// `FromCli` for a struct: the values of the plain fields, the new context scope, the output
/// context when one is given, then the subargs, `named_arg` and subcommand fields.
#[derive(Debug)]
pub struct FromCliStructPlan {
    pub name: String,
    pub context: ContextDir,
    pub scope_name: String,
    pub scope_fields: Vec<ScopeField>,
    pub values: Vec<FieldValue>,
    pub output_context: Option<Vec<String>>,
    pub subargs: Option<NestedValue>,
    pub named_arg: Option<NamedArgValue>,
    pub subcommand: Option<NestedValue>,
}

/// `FromCliStructPlan` as plain sequences.
pub struct FromCliStructView {
    pub name: Seq<char>,
    pub context: ContextDirView,
    pub scope_name: Seq<char>,
    pub scope_fields: Seq<ScopeFieldView>,
    pub values: Seq<FieldValueView>,
    pub output_context: Option<Seq<Seq<char>>>,
    pub subargs: Option<NestedValueView>,
    pub named_arg: Option<NamedArgValueView>,
    pub subcommand: Option<NestedValueView>,
}

impl View for FromCliStructPlan {
    type V = FromCliStructView;

    open spec fn view(&self) -> FromCliStructView {
        FromCliStructView {
            name: self.name@,
            context: self.context@,
            scope_name: self.scope_name@,
            scope_fields: scope_views(self.scope_fields@),
            values: value_views(self.values@),
            output_context: opt_strings_view(self.output_context),
            subargs: opt_nested_view(self.subargs),
            named_arg: opt_named_view(self.named_arg),
            subcommand: opt_nested_view(self.subcommand),
        }
    }
}

/// `FromCli` for the struct, `None` when the struct is marked `skip_default_from_cli`. The
/// `named_arg` field is looked for first, then the subcommand field, then the subargs field.
pub open spec fn from_cli_struct_spec(ast: DeriveInput, fields: Seq<Field>) -> Outcome<
    Option<FromCliStructView>,
> {
    let c = context_spec(ast);
    if c.is_skip_default_from_cli {
        Outcome::Gives(None)
    } else {
        match named_arg_value_spec(fields, ast.ident@, Probe::Equals("named_arg")) {
            Outcome::Panics => Outcome::Panics,
            Outcome::Refuses(e) => Outcome::Refuses(e),
            Outcome::Gives(na) => match nested_value_spec(fields, Probe::Contains("subcommand")) {
                Err(e) => Outcome::Refuses(e),
                Ok(sc) => match nested_value_spec(fields, Probe::Contains("subargs")) {
                    Err(e) => Outcome::Refuses(e),
                    Ok(sa) => Outcome::Gives(
                        Some(
                            FromCliStructView {
                                name: ast.ident@,
                                context: input_context_spec(c),
                                scope_name: scope_name_spec(ast.ident@),
                                scope_fields: scope_fields_spec(fields, true),
                                values: values_spec(fields),
                                output_context: c.output_context_dir,
                                subargs: sa,
                                named_arg: na,
                                subcommand: sc,
                            },
                        ),
                    ),
                },
            },
        }
    }
}

/// Whether the exec outcome `r` is the outcome `o`.
pub open spec fn struct_outcome_is(o: Outcome<Option<FromCliStructView>>, r: Result<Option<FromCliStructPlan>, DeriveError>) -> bool {
    match r {
        Ok(Some(p)) => o == Outcome::Gives(Some(p@)),
        Ok(None) => o == Outcome::<Option<FromCliStructView>>::Gives(None),
        Err(e) => o == Outcome::<Option<FromCliStructView>>::Refuses(e),
    }
}

/// `FromCli` for the struct.
pub fn token_stream(ast: &DeriveInput, fields: &Vec<Field>) -> (res: Result<Option<FromCliStructPlan>, DeriveError>)
    requires
        context_ok(*ast),
        all_named(fields@),
        !(from_cli_struct_spec(*ast, fields@) is Panics),
    ensures
        struct_outcome_is(from_cli_struct_spec(*ast, fields@), res),
{
    let c = InteractiveClapAttrsContext::new(ast);
    if c.is_skip_default_from_cli {
        return Ok(None);
    }
    let scope = scope_fields(fields, true);
    let vals = values(fields);
    let named_arg = match named_arg_value(fields, ast.ident.as_str(), &Probe::Equals("named_arg")) {
        Some(r) => r?,
        None => {
            return Ok(None);
        },
    };
    let subcommand = nested_value(fields, &Probe::Contains("subcommand"))?;
    let subargs = nested_value(fields, &Probe::Contains("subargs"))?;
    let output_context = match &c.output_context_dir {
        Some(v) => Some(copy_strings(v)),
        None => None,
    };
    Ok(
        Some(
            FromCliStructPlan {
                name: copy_str(ast.ident.as_str()),
                context: c.get_input_context_dir(),
                scope_name: scope_name(ast.ident.as_str()),
                scope_fields: scope,
                values: vals,
                output_context,
                subargs,
                named_arg,
                subcommand,
            },
        ),
    )
}

/// `FromCli` for the struct where the derive returns, and `None` where it panics (the
/// `named_arg` field's name cannot be put in CamelCase).
pub fn checked_token_stream(ast: &DeriveInput, fields: &Vec<Field>) -> (res: Option<
    Result<Option<FromCliStructPlan>, DeriveError>,
>)
    requires
        context_ok(*ast),
        all_named(fields@),
    ensures
        none_iff_panics(from_cli_struct_spec(*ast, fields@), res),
        res matches Some(r) ==> struct_outcome_is(from_cli_struct_spec(*ast, fields@), r),
{
    let c = InteractiveClapAttrsContext::new(ast);
    if !c.is_skip_default_from_cli
        && named_arg_value(fields, ast.ident.as_str(), &Probe::Equals("named_arg")).is_none() {
        return None;
    }
    Some(token_stream(ast, fields))
}

} // verus!
