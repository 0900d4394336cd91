//! `interactive_clap::ToInteractiveClapContextScope`: the scope type that carries the values
//! read so far of a struct's fields, or the discriminants of an enum.

use vstd::prelude::*;
use crate::model::Field;
use crate::cli_args::all_named;
use crate::field_attrs::{all_tokens, is_field_with_subargs, is_field_with_subcommand,
    is_field_without_subcommand};
use crate::tokens::{Probe, any_group_passes, any_text_passes};
use crate::text::{concat2, copy_str};

verus! {

/// A field of the scope struct: `pub <ident>: <ty>`.
#[derive(Debug)]
pub struct ScopeField {
    pub ident: String,
    pub ty: String,
}

/// `ScopeField` as plain sequences.
pub struct ScopeFieldView {
    pub ident: Seq<char>,
    pub ty: Seq<char>,
}

impl View for ScopeField {
    type V = ScopeFieldView;

    open spec fn view(&self) -> ScopeFieldView {
        ScopeFieldView { ident: self.ident@, ty: self.ty@ }
    }
}

/// The views of a run of scope fields.
pub open spec fn scope_views(v: Seq<ScopeField>) -> Seq<ScopeFieldView> {
    v.map_values(|f: ScopeField| f@)
}

/// `InteractiveClapContextScopeFor<Name>`.
pub open spec fn scope_name_spec(name: Seq<char>) -> Seq<char> {
    "InteractiveClapContextScopeFor"@ + name
}

/// `InteractiveClapContextScopeFor<Name>`.
pub fn scope_name(name: &str) -> (res: String)
    ensures
        res@ == scope_name_spec(name@),
{
    concat2("InteractiveClapContextScopeFor", name)
}

/// Whether a field enters the scope: in the current derive, a field without a subcommand and
/// without subargs; in the classic one, a field without a subcommand.
pub open spec fn in_scope(f: Field, modern: bool) -> bool {
    let sub = any_group_passes(all_tokens(f), Probe::Either("named_arg", "subcommand"));
    if modern {
        !sub && !any_text_passes(all_tokens(f), Probe::Contains("subargs"))
    } else {
        !sub
    }
}

/// The scope fields of the fields that enter the scope, in field order.
pub open spec fn scope_fields_spec(fields: Seq<Field>, modern: bool) -> Seq<ScopeFieldView>
    decreases fields.len(),
{
    if fields.len() == 0 {
        seq![]
    } else {
        scope_fields_spec(fields.drop_last(), modern) + if in_scope(fields.last(), modern) {
            seq![ScopeFieldView { ident: fields.last().ident->0@, ty: fields.last().ty.text@ }]
        } else {
            seq![]
        }
    }
}

/// The scope field of a field of the current derive, when it enters the scope.
pub fn field_transform(field: &Field) -> (res: Option<ScopeField>)
    requires
        field.ident is Some,
    ensures
        match res {
            Some(s) => in_scope(*field, true) && s@ == (ScopeFieldView {
                ident: field.ident->0@,
                ty: field.ty.text@,
            }),
            None => !in_scope(*field, true),
        },
{
    if !is_field_with_subcommand(field) && !is_field_with_subargs(field) {
        match &field.ident {
            Some(id) => Some(ScopeField { ident: copy_str(id.as_str()), ty: copy_str(field.ty.text.as_str()) }),
            None => None,
        }
    } else {
        None
    }
}

/// The scope field of a field of the classic derive, when it has no subcommand.
pub fn context_scope_for_struct_field(field: &Field) -> (res: Option<ScopeField>)
    requires
        field.ident is Some,
    ensures
        match res {
            Some(s) => in_scope(*field, false) && s@ == (ScopeFieldView {
                ident: field.ident->0@,
                ty: field.ty.text@,
            }),
            None => !in_scope(*field, false),
        },
{
    if is_field_without_subcommand(field) {
        match &field.ident {
            Some(id) => Some(ScopeField { ident: copy_str(id.as_str()), ty: copy_str(field.ty.text.as_str()) }),
            None => None,
        }
    } else {
        None
    }
}

/// The scope fields of the fields that enter the scope.
pub fn scope_fields(fields: &Vec<Field>, modern: bool) -> (res: Vec<ScopeField>)
    requires
        all_named(fields@),
    ensures
        scope_views(res@) == scope_fields_spec(fields@, modern),
{
    let mut out: Vec<ScopeField> = Vec::new();
    let mut i: usize = 0;
    assert(scope_views(out@) =~= Seq::<ScopeFieldView>::empty());
    while i < fields.len()
        invariant
            i <= fields.len(),
            all_named(fields@),
            scope_views(out@) == scope_fields_spec(fields@.take(i as int), modern),
        decreases fields.len() - i,
    {
        assert(fields@.take(i + 1).drop_last() =~= fields@.take(i as int));
        assert(fields@[i as int].ident is Some);
        let ghost before = scope_views(out@);
        let r = if modern {
            field_transform(&fields[i])
        } else {
            context_scope_for_struct_field(&fields[i])
        };
        match r {
            Some(s) => {
                out.push(s);
                assert(scope_views(out@) =~= before.push(out@.last()@));
            },
            None => {
                assert(before + Seq::<ScopeFieldView>::empty() =~= before);
            },
        }
        i = i + 1;
    }
    assert(fields@.take(fields.len() as int) =~= fields@);
    out
}

/// The scope of a struct: `pub struct InteractiveClapContextScopeFor<Name> { .. }` and its
/// `ToInteractiveClapContextScope` impl.
#[derive(Debug)]
pub struct StructScope {
    pub name: String,
    pub scope_name: String,
    pub fields: Vec<ScopeField>,
}

/// The scope of a struct named `name` with the given scope fields (classic derive).
pub fn context_scope_for_struct(name: &str, context_scope_fields: Vec<ScopeField>) -> (res: StructScope)
    ensures
        res.name@ == name@,
        res.scope_name@ == scope_name_spec(name@),
        scope_views(res.fields@) == scope_views(context_scope_fields@),
{
    StructScope { name: copy_str(name), scope_name: scope_name(name), fields: context_scope_fields }
}

/// The scope of an enum: `pub type InteractiveClapContextScopeFor<Name> =
/// <Name>Discriminants;` and its `ToInteractiveClapContextScope` impl.
#[derive(Debug)]
pub struct EnumScope {
    pub name: String,
    pub scope_name: String,
    pub discriminants: String,
}

/// `<Name>Discriminants`, the enum that `strum` derives of an enum's variants.
pub open spec fn discriminants_spec(name: Seq<char>) -> Seq<char> {
    name + "Discriminants"@
}

/// The scope of the enum `name`.
pub fn context_scope_for_enum(name: &str) -> (res: EnumScope)
    ensures
        res.name@ == name@,
        res.scope_name@ == scope_name_spec(name@),
        res.discriminants@ == discriminants_spec(name@),
{
    EnumScope {
        name: copy_str(name),
        scope_name: scope_name(name),
        discriminants: concat2(name, "Discriminants"),
    }
}

} // verus!
