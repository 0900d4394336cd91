//! `#[derive(InteractiveClap)]` as a whole: everything it generates for a struct or an enum,
//! made in the order in which the derive makes it, so that the refusal or panic that comes
//! first is the one that is reported.

use vstd::prelude::*;
use crate::model::{Attr, AttrToken, Data, DeriveInput, Field, TokenKind, Variant, VariantFields,
    path_is, attr_path_is};
use crate::error::{DeriveError, Outcome};
use crate::cli_args::all_named;
use crate::cli_struct::{CliFieldPlan, CliFieldPlanView, FieldConversion, FieldConversionView,
    conversion_views, plan_views};
use crate::structs::to_cli_trait::{to_cli_spec, token_stream as to_cli_trait};
use crate::structs::from_cli_trait::{FromCliStructPlan, FromCliStructView, checked_token_stream as
    checked_from_cli_trait, from_cli_struct_spec};
use crate::structs::input_args_impl::token_stream as input_args_impl;
use crate::structs::to_interactive_clap_context_scope_trait::token_stream as context_scope_trait;
use crate::context::{InteractiveClapAttrsContext, context_ok, context_readable, strings_view};
use crate::scope::{ScopeField, ScopeFieldView, context_scope_for_enum, discriminants_spec,
    scope_fields_spec, scope_name_spec, scope_views};
use crate::common_methods::choose_variant::fn_choose_variant;
use crate::methods::from_cli_for_enum::from_cli_for_enum;
use crate::from_cli::{FromCliEnumPlan, FromCliEnumView};
use crate::input_args::{InputArgFn, InputArgFnView, InputVersion, input_views, struct_input_args_spec};
use crate::choose_variant::{ChooseVariantPlan, ChooseVariantPlanView, ChooseVersion, choose_variant_spec};
use crate::from_cli::{arms_panic, from_cli_enum_spec};
use crate::structs::clap_for_named_arg_enum::{NamedArgEnum, NamedArgEnumView, checked_token_stream
    as checked_named_arg_enum, named_arg_enum_spec, opt_enum_view};
use crate::text::{concat2, copy_str, seq_contains, str_contains};

verus! {

/// A variant of the `Cli...` enum: its doc comments and `cfg(feature ..)` attributes, its
/// name, and the type whose CLI variant it holds (none for a unit variant).
#[derive(Debug)]
pub struct CliVariantDecl {
    pub attrs: Vec<String>,
    pub ident: String,
    pub ty: Option<String>,
}

/// `CliVariantDecl` as plain sequences.
pub struct CliVariantDeclView {
    pub attrs: Seq<Seq<char>>,
    pub ident: Seq<char>,
    pub ty: Option<Seq<char>>,
}

impl View for CliVariantDecl {
    type V = CliVariantDeclView;

    open spec fn view(&self) -> CliVariantDeclView {
        CliVariantDeclView {
            attrs: strings_view(self.attrs@),
            ident: self.ident@,
            ty: match self.ty {
                Some(t) => Some(t@),
                None => None,
            },
        }
    }
}

/// The views of a run of variant declarations.
pub open spec fn decl_views(v: Seq<CliVariantDecl>) -> Seq<CliVariantDeclView> {
    v.map_values(|d: CliVariantDecl| d@)
}

/// What the derive generates for a struct.
#[derive(Debug)]
pub struct StructItems {
    pub name: String,
    /// `Cli<Name>`, with `impl ToCli`, the `clap::Parser` adapter and
    /// `impl From<Name> for Cli<Name>`.
    pub cli_name: String,
    /// The fields of `Cli<Name>`.
    pub cli_fields: Vec<CliFieldPlan>,
    /// The fields of `impl From<Name> for Cli<Name>`.
    pub conversions: Vec<FieldConversion>,
    /// The `input_<field>` prompts.
    pub input_args: Vec<InputArgFn>,
    /// `InteractiveClapContextScopeFor<Name>` and its fields.
    pub scope_name: String,
    pub scope_fields: Vec<ScopeField>,
    /// `impl FromCli`, absent when the struct is marked `skip_default_from_cli`.
    pub from_cli: Option<FromCliStructPlan>,
    /// The helper enum of the first `named_arg` field.
    pub named_arg_enum: Option<NamedArgEnum>,
}

/// `StructItems` as plain sequences.
pub struct StructItemsView {
    pub name: Seq<char>,
    pub cli_name: Seq<char>,
    pub cli_fields: Seq<CliFieldPlanView>,
    pub conversions: Seq<FieldConversionView>,
    pub input_args: Seq<InputArgFnView>,
    pub scope_name: Seq<char>,
    pub scope_fields: Seq<ScopeFieldView>,
    pub from_cli: Option<FromCliStructView>,
    pub named_arg_enum: Option<NamedArgEnumView>,
}

impl View for StructItems {
    type V = StructItemsView;

    open spec fn view(&self) -> StructItemsView {
        StructItemsView {
            name: self.name@,
            cli_name: self.cli_name@,
            cli_fields: plan_views(self.cli_fields@),
            conversions: conversion_views(self.conversions@),
            input_args: input_views(self.input_args@),
            scope_name: self.scope_name@,
            scope_fields: scope_views(self.scope_fields@),
            from_cli: match self.from_cli {
                Some(p) => Some(p@),
                None => None,
            },
            named_arg_enum: opt_enum_view(self.named_arg_enum),
        }
    }
}

/// What the derive generates for an enum.
#[derive(Debug)]
pub struct EnumItems {
    pub name: String,
    /// `Cli<Name>`.
    pub cli_name: String,
    /// The variants of `Cli<Name>`, in order; `impl From<Name> for Cli<Name>` maps each
    /// variant to the one of the same name, converting its content when it has one.
    pub variants: Vec<CliVariantDecl>,
    /// `InteractiveClapContextScopeFor<Name>`, an alias of `<Name>Discriminants`.
    pub scope_name: String,
    pub discriminants: String,
    /// `impl FromCli`, absent when the enum is marked `skip_default_from_cli`.
    pub from_cli: Option<FromCliEnumPlan>,
    /// `choose_variant`.
    pub choose_variant: ChooseVariantPlan,
}

/// `EnumItems` as plain sequences.
pub struct EnumItemsView {
    pub name: Seq<char>,
    pub cli_name: Seq<char>,
    pub variants: Seq<CliVariantDeclView>,
    pub scope_name: Seq<char>,
    pub discriminants: Seq<char>,
    pub from_cli: Option<FromCliEnumView>,
    pub choose_variant: ChooseVariantPlanView,
}

impl View for EnumItems {
    type V = EnumItemsView;

    open spec fn view(&self) -> EnumItemsView {
        EnumItemsView {
            name: self.name@,
            cli_name: self.cli_name@,
            variants: decl_views(self.variants@),
            scope_name: self.scope_name@,
            discriminants: self.discriminants@,
            from_cli: match self.from_cli {
                Some(p) => Some(p@),
                None => None,
            },
            choose_variant: self.choose_variant@,
        }
    }
}

/// What `#[derive(InteractiveClap)]` generates.
#[derive(Debug)]
pub enum InteractiveClapItems {
    Struct(StructItems),
    Enum(EnumItems),
}

/// `InteractiveClapItems` as plain sequences.
pub enum InteractiveClapItemsView {
    Struct(StructItemsView),
    Enum(EnumItemsView),
}

impl View for InteractiveClapItems {
    type V = InteractiveClapItemsView;

    open spec fn view(&self) -> InteractiveClapItemsView {
        match self {
            InteractiveClapItems::Struct(s) => InteractiveClapItemsView::Struct(s@),
            InteractiveClapItems::Enum(e) => InteractiveClapItemsView::Enum(e@),
        }
    }
}

/// The attribute text, once for each group of the `cfg` attribute `a` that mentions
/// `feature`; a token that is not a group is refused.
pub open spec fn cfg_feature_texts(ts: Seq<AttrToken>, a: Attr) -> Result<Seq<Seq<char>>, DeriveError>
    decreases ts.len(),
{
    if ts.len() == 0 {
        Ok(seq![])
    } else if ts[0].kind != TokenKind::Group {
        Err(DeriveError::OnlyGroupTokens)
    } else {
        match cfg_feature_texts(ts.drop_first(), a) {
            Err(e) => Err(e),
            Ok(rest) => Ok(
                if seq_contains(ts[0].stream@, "feature"@) {
                    seq![a.text@] + rest
                } else {
                    rest
                },
            ),
        }
    }
}

/// The attributes carried over to a variant of `Cli<Name>`, in order: every doc comment, and
/// each `cfg` attribute once for each of its groups that mentions `feature`.
pub open spec fn variant_attrs_spec(attrs: Seq<Attr>) -> Result<Seq<Seq<char>>, DeriveError>
    decreases attrs.len(),
{
    if attrs.len() == 0 {
        Ok(seq![])
    } else {
        let a = attrs[0];
        let doc: Seq<Seq<char>> = if path_is(a, "doc"@) {
            seq![a.text@]
        } else {
            seq![]
        };
        let cfg = if path_is(a, "cfg"@) {
            cfg_feature_texts(a.tokens@, a)
        } else {
            Ok(seq![])
        };
        match cfg {
            Err(e) => Err(e),
            Ok(c) => match variant_attrs_spec(attrs.drop_first()) {
                Err(e) => Err(e),
                Ok(rest) => Ok(doc + c + rest),
            },
        }
    }
}

/// The variant of `Cli<Name>` that stands for `v`: its attributes are read first; a variant
/// with named fields is refused, and a tuple variant without fields panics (its first field
/// is read).
pub open spec fn cli_variant_spec(v: Variant) -> Outcome<CliVariantDeclView> {
    match variant_attrs_spec(v.attrs@) {
        Err(e) => Outcome::Refuses(e),
        Ok(attrs) => match v.fields {
            VariantFields::Named => Outcome::Refuses(DeriveError::OnlyUnnamedOrUnitFields),
            VariantFields::Unit => Outcome::Gives(CliVariantDeclView { attrs, ident: v.ident@, ty: None }),
            VariantFields::Unnamed(tys) => if tys@.len() == 0 {
                Outcome::Panics
            } else {
                Outcome::Gives(CliVariantDeclView { attrs, ident: v.ident@, ty: Some(tys@[0].text@) })
            },
        },
    }
}

/// The variants of `Cli<Name>`, variant after variant; the first refusal or panic is the
/// outcome.
pub open spec fn cli_variants_spec(vs: Seq<Variant>) -> Outcome<Seq<CliVariantDeclView>>
    decreases vs.len(),
{
    if vs.len() == 0 {
        Outcome::Gives(seq![])
    } else {
        match cli_variant_spec(vs[0]) {
            Outcome::Gives(d) => match cli_variants_spec(vs.drop_first()) {
                Outcome::Gives(rest) => Outcome::Gives(seq![d] + rest),
                o => o,
            },
            Outcome::Refuses(e) => Outcome::Refuses(e),
            Outcome::Panics => Outcome::Panics,
        }
    }
}

/// What the derive generates for a struct with the fields `fields`. In order: `Cli<Name>`
/// and the conversion into it (a field without a name panics there), then, reading the
/// item's context attributes (a panic when a `context` group lacks `name =`),
/// `impl FromCli`, the prompts, the scope, and the helper enum of the first `named_arg`
/// field.
pub open spec fn struct_items_spec(ast: DeriveInput, fields: Seq<Field>) -> Outcome<StructItemsView> {
    if !all_named(fields) {
        Outcome::Panics
    } else {
        match to_cli_spec(ast.ident@, "Cli"@ + ast.ident@, fields) {
            Err(e) => Outcome::Refuses(e),
            Ok(tc) => if !context_ok(ast) {
                Outcome::Panics
            } else {
                match from_cli_struct_spec(ast, fields) {
                    Outcome::Panics => Outcome::Panics,
                    Outcome::Refuses(e) => Outcome::Refuses(e),
                    Outcome::Gives(fc) => match named_arg_enum_spec(ast.ident@, fields) {
                        Outcome::Panics => Outcome::Panics,
                        Outcome::Refuses(e) => Outcome::Refuses(e),
                        Outcome::Gives(ne) => Outcome::Gives(
                            StructItemsView {
                                name: ast.ident@,
                                cli_name: tc.cli_name,
                                cli_fields: tc.cli_fields,
                                conversions: tc.conversions,
                                input_args: struct_input_args_spec(ast, fields, InputVersion::Structs),
                                scope_name: scope_name_spec(ast.ident@),
                                scope_fields: scope_fields_spec(fields, true),
                                from_cli: fc,
                                named_arg_enum: ne,
                            },
                        ),
                    },
                }
            },
        }
    }
}

/// What the derive generates for an enum with the variants `vs`. In order: the item's
/// context attributes (a panic when a `context` group lacks `name =`), `choose_variant`,
/// `impl FromCli`, and the variants of `Cli<Name>`.
pub open spec fn enum_items_spec(ast: DeriveInput, vs: Seq<Variant>) -> Outcome<EnumItemsView> {
    if !context_ok(ast) {
        Outcome::Panics
    } else {
        match choose_variant_spec(ast, vs, ChooseVersion::Common) {
            Err(e) => Outcome::Refuses(e),
            Ok(cv) => match from_cli_enum_spec(ast, vs) {
                Outcome::Panics => Outcome::Panics,
                Outcome::Refuses(e) => Outcome::Refuses(e),
                Outcome::Gives(fc) => match cli_variants_spec(vs) {
                    Outcome::Panics => Outcome::Panics,
                    Outcome::Refuses(e) => Outcome::Refuses(e),
                    Outcome::Gives(ds) => Outcome::Gives(
                        EnumItemsView {
                            name: ast.ident@,
                            cli_name: "Cli"@ + ast.ident@,
                            variants: ds,
                            scope_name: scope_name_spec(ast.ident@),
                            discriminants: discriminants_spec(ast.ident@),
                            from_cli: fc,
                            choose_variant: cv,
                        },
                    ),
                },
            },
        }
    }
}

/// What `#[derive(InteractiveClap)]` generates for the item `ast`; a union is refused.
pub open spec fn impl_interactive_clap_spec(ast: DeriveInput) -> Outcome<InteractiveClapItemsView> {
    match ast.data {
        Data::Struct(fields) => match struct_items_spec(ast, fields@) {
            Outcome::Gives(s) => Outcome::Gives(InteractiveClapItemsView::Struct(s)),
            Outcome::Refuses(e) => Outcome::Refuses(e),
            Outcome::Panics => Outcome::Panics,
        },
        Data::Enum(vs) => match enum_items_spec(ast, vs@) {
            Outcome::Gives(e) => Outcome::Gives(InteractiveClapItemsView::Enum(e)),
            Outcome::Refuses(e) => Outcome::Refuses(e),
            Outcome::Panics => Outcome::Panics,
        },
        Data::Union => Outcome::Refuses(DeriveError::OnlyStructsAndEnums),
    }
}

/// Whether the exec outcome `r` is the outcome `o`.
pub open spec fn items_outcome_is(o: Outcome<InteractiveClapItemsView>, r: Result<InteractiveClapItems, DeriveError>) -> bool {
    match r {
        Ok(p) => o == Outcome::Gives(p@),
        Err(e) => o == Outcome::<InteractiveClapItemsView>::Refuses(e),
    }
}

} // verus!

verus! {

/// Whether every field has a name.
pub fn fields_named(fields: &Vec<Field>) -> (res: bool)
    ensures
        res == all_named(fields@),
{
    let mut i: usize = 0;
    while i < fields.len()
        invariant
            i <= fields.len(),
            forall|q: int| 0 <= q < i ==> (#[trigger] fields@[q]).ident is Some,
        decreases fields.len() - i,
    {
        if fields[i].ident.is_none() {
            assert(!all_named(fields@)) by {
                assert(!(fields@[i as int].ident is Some));
            }
            return false;
        }
        i = i + 1;
    }
    true
}

/// The attribute text once for each group of the `cfg` attribute `a` that mentions
/// `feature`.
fn cfg_features(a: &Attr) -> (res: Result<Vec<String>, DeriveError>)
    ensures
        cfg_feature_texts(a.tokens@, *a) == match res {
            Ok(v) => Ok(strings_view(v@)),
            Err(e) => Err(e),
        },
{
    let ghost ts = a.tokens@;
    let mut out: Vec<String> = Vec::new();
    let mut i: usize = 0;
    assert(ts.skip(0) =~= ts);
    assert(strings_view(out@) =~= Seq::<Seq<char>>::empty());
    while i < a.tokens.len()
        invariant
            ts == a.tokens@,
            i <= ts.len(),
            cfg_feature_texts(ts, *a) == match cfg_feature_texts(ts.skip(i as int), *a) {
                Err(e) => Err(e),
                Ok(rest) => Ok(strings_view(out@) + rest),
            },
        decreases ts.len() - i,
    {
        assert(ts.skip(i as int)[0] == ts[i as int]);
        assert(ts.skip(i as int).drop_first() =~= ts.skip(i + 1));
        let t = &a.tokens[i];
        if t.kind != TokenKind::Group {
            return Err(DeriveError::OnlyGroupTokens);
        }
        let ghost before = strings_view(out@);
        if str_contains(t.stream.as_str(), "feature") {
            out.push(copy_str(a.text.as_str()));
            proof {
                assert(strings_view(out@) =~= before.push(a.text@));
                if let Ok(rest) = cfg_feature_texts(ts.skip(i + 1), *a) {
                    assert(before + (seq![a.text@] + rest) =~= before.push(a.text@) + rest);
                }
            }
        }
        i = i + 1;
    }
    assert(ts.skip(i as int).len() == 0);
    assert(strings_view(out@) + Seq::<Seq<char>>::empty() =~= strings_view(out@));
    Ok(out)
}

/// The attributes carried over to a variant of `Cli<Name>`.
fn variant_attrs(attrs: &Vec<Attr>) -> (res: Result<Vec<String>, DeriveError>)
    ensures
        variant_attrs_spec(attrs@) == match res {
            Ok(v) => Ok(strings_view(v@)),
            Err(e) => Err(e),
        },
{
    let mut out: Vec<String> = Vec::new();
    let mut i: usize = 0;
    assert(attrs@.skip(0) =~= attrs@);
    assert(strings_view(out@) =~= Seq::<Seq<char>>::empty());
    while i < attrs.len()
        invariant
            i <= attrs.len(),
            variant_attrs_spec(attrs@) == match variant_attrs_spec(attrs@.skip(i as int)) {
                Err(e) => Err(e),
                Ok(rest) => Ok(strings_view(out@) + rest),
            },
        decreases attrs.len() - i,
    {
        assert(attrs@.skip(i as int)[0] == attrs@[i as int]);
        assert(attrs@.skip(i as int).drop_first() =~= attrs@.skip(i + 1));
        let a = &attrs[i];
        let ghost before = strings_view(out@);
        let is_doc = attr_path_is(a, "doc");
        if is_doc {
            out.push(copy_str(a.text.as_str()));
        }
        let ghost mid = strings_view(out@);
        proof {
            if is_doc {
                assert(mid =~= before + seq![a.text@]);
            } else {
                assert(mid =~= before + Seq::<Seq<char>>::empty());
            }
        }
        if attr_path_is(a, "cfg") {
            let mut cs = cfg_features(a)?;
            out.append(&mut cs);
        }
        proof {
            let d: Seq<Seq<char>> = if path_is(*a, "doc"@) { seq![a.text@] } else { seq![] };
            assert(mid == before + d);
            if let Ok(rest) = variant_attrs_spec(attrs@.skip(i + 1)) {
                if path_is(*a, "cfg"@) {
                    if let Ok(c) = cfg_feature_texts(a.tokens@, *a) {
                        assert(strings_view(out@) =~= mid + c);
                        assert(before + (d + c + rest) =~= (mid + c) + rest);
                    }
                } else {
                    assert(strings_view(out@) == mid);
                    assert(before + (d + Seq::<Seq<char>>::empty() + rest) =~= mid + rest);
                }
            }
        }
        i = i + 1;
    }
    assert(attrs@.skip(i as int).len() == 0);
    assert(strings_view(out@) + Seq::<Seq<char>>::empty() =~= strings_view(out@));
    Ok(out)
}

/// Whether the exec answer `r` is the outcome `o` of making a variant.
pub open spec fn decl_outcome_is(o: Outcome<CliVariantDeclView>, r: Option<Result<CliVariantDecl, DeriveError>>) -> bool {
    match r {
        None => o is Panics,
        Some(Ok(d)) => o == Outcome::Gives(d@),
        Some(Err(e)) => o == Outcome::<CliVariantDeclView>::Refuses(e),
    }
}

/// The variant of `Cli<Name>` that stands for `v`; `None` where the derive panics.
fn cli_variant(v: &Variant) -> (res: Option<Result<CliVariantDecl, DeriveError>>)
    ensures
        decl_outcome_is(cli_variant_spec(*v), res),
{
    let attrs = match variant_attrs(&v.attrs) {
        Ok(a) => a,
        Err(e) => {
            return Some(Err(e));
        },
    };
    match &v.fields {
        VariantFields::Named => Some(Err(DeriveError::OnlyUnnamedOrUnitFields)),
        VariantFields::Unit => Some(Ok(CliVariantDecl { attrs, ident: copy_str(v.ident.as_str()), ty: None })),
        VariantFields::Unnamed(tys) => {
            if tys.len() == 0 {
                None
            } else {
                Some(
                    Ok(
                        CliVariantDecl {
                            attrs,
                            ident: copy_str(v.ident.as_str()),
                            ty: Some(copy_str(tys[0].text.as_str())),
                        },
                    ),
                )
            }
        },
    }
}

/// Whether the exec answer `r` is the outcome `o` of making the variants.
pub open spec fn decls_outcome_is(o: Outcome<Seq<CliVariantDeclView>>, r: Option<Result<Vec<CliVariantDecl>, DeriveError>>) -> bool {
    match r {
        None => o is Panics,
        Some(Ok(v)) => o == Outcome::Gives(decl_views(v@)),
        Some(Err(e)) => o == Outcome::<Seq<CliVariantDeclView>>::Refuses(e),
    }
}

/// The variants of `Cli<Name>`; `None` where the derive panics.
fn cli_variants(vs: &Vec<Variant>) -> (res: Option<Result<Vec<CliVariantDecl>, DeriveError>>)
    ensures
        decls_outcome_is(cli_variants_spec(vs@), res),
{
    let mut out: Vec<CliVariantDecl> = Vec::new();
    let mut i: usize = 0;
    assert(vs@.skip(0) =~= vs@);
    assert(decl_views(out@) =~= Seq::<CliVariantDeclView>::empty());
    while i < vs.len()
        invariant
            i <= vs.len(),
            cli_variants_spec(vs@) == match cli_variants_spec(vs@.skip(i as int)) {
                Outcome::Gives(rest) => Outcome::Gives(decl_views(out@) + rest),
                o => o,
            },
        decreases vs.len() - i,
    {
        assert(vs@.skip(i as int)[0] == vs@[i as int]);
        assert(vs@.skip(i as int).drop_first() =~= vs@.skip(i + 1));
        let ghost before = decl_views(out@);
        match cli_variant(&vs[i]) {
            None => {
                return None;
            },
            Some(Err(e)) => {
                return Some(Err(e));
            },
            Some(Ok(d)) => {
                let ghost dv = d@;
                out.push(d);
                proof {
                    assert(decl_views(out@) =~= before.push(dv));
                    if let Outcome::Gives(rest) = cli_variants_spec(vs@.skip(i + 1)) {
                        assert(before + (seq![dv] + rest) =~= before.push(dv) + rest);
                    }
                }
            },
        }
        i = i + 1;
    }
    assert(vs@.skip(i as int).len() == 0);
    assert(decl_views(out@) + Seq::<CliVariantDeclView>::empty() =~= decl_views(out@));
    Some(Ok(out))
}

/// Whether the exec answer `r` is the outcome `o` of the derive.
pub open spec fn items_answer_is(o: Outcome<InteractiveClapItemsView>, r: Option<Result<InteractiveClapItems, DeriveError>>) -> bool {
    match r {
        None => o is Panics,
        Some(x) => items_outcome_is(o, x),
    }
}

/// What the derive generates for a struct; `None` where it panics.
fn struct_items(ast: &DeriveInput, fields: &Vec<Field>) -> (res: Option<Result<StructItems, DeriveError>>)
    ensures
        match res {
            None => struct_items_spec(*ast, fields@) is Panics,
            Some(Ok(p)) => struct_items_spec(*ast, fields@) == Outcome::Gives(p@),
            Some(Err(e)) => struct_items_spec(*ast, fields@) == Outcome::<StructItemsView>::Refuses(e),
        },
{
    if !fields_named(fields) {
        return None;
    }
    let name = ast.ident.as_str();
    let cli_name = concat2("Cli", name);
    let to_cli = match to_cli_trait(name, cli_name.as_str(), fields) {
        Ok(x) => x,
        Err(e) => {
            return Some(Err(e));
        },
    };
    if !context_readable(ast) {
        return None;
    }
    let from_cli = match checked_from_cli_trait(ast, fields) {
        None => {
            return None;
        },
        Some(Err(e)) => {
            return Some(Err(e));
        },
        Some(Ok(x)) => x,
    };
    let input_args = input_args_impl(ast, fields);
    let scope = context_scope_trait(ast, fields);
    let named_arg_enum = match checked_named_arg_enum(ast, fields) {
        None => {
            return None;
        },
        Some(Err(e)) => {
            return Some(Err(e));
        },
        Some(Ok(x)) => x,
    };
    Some(
        Ok(
            StructItems {
                name: copy_str(name),
                cli_name: to_cli.cli_name,
                cli_fields: to_cli.cli_fields,
                conversions: to_cli.conversions,
                input_args: input_args.fns,
                scope_name: scope.scope_name,
                scope_fields: scope.fields,
                from_cli,
                named_arg_enum,
            },
        ),
    )
}

/// What the derive generates for an enum; `None` where it panics.
fn enum_items(ast: &DeriveInput, vs: &Vec<Variant>) -> (res: Option<Result<EnumItems, DeriveError>>)
    ensures
        match res {
            None => enum_items_spec(*ast, vs@) is Panics,
            Some(Ok(p)) => enum_items_spec(*ast, vs@) == Outcome::Gives(p@),
            Some(Err(e)) => enum_items_spec(*ast, vs@) == Outcome::<EnumItemsView>::Refuses(e),
        },
{
    if !context_readable(ast) {
        return None;
    }
    let choose_variant = match fn_choose_variant(ast, vs) {
        Ok(x) => x,
        Err(e) => {
            return Some(Err(e));
        },
    };
    let c = InteractiveClapAttrsContext::new(ast);
    if !c.is_skip_default_from_cli && arms_panic(vs) {
        return None;
    }
    let from_cli = match from_cli_for_enum(ast, vs) {
        Ok(x) => x,
        Err(e) => {
            return Some(Err(e));
        },
    };
    let variants = match cli_variants(vs) {
        None => {
            return None;
        },
        Some(Err(e)) => {
            return Some(Err(e));
        },
        Some(Ok(x)) => x,
    };
    let name = ast.ident.as_str();
    let scope = context_scope_for_enum(name);
    Some(
        Ok(
            EnumItems {
                name: copy_str(name),
                cli_name: concat2("Cli", name),
                variants,
                scope_name: scope.scope_name,
                discriminants: scope.discriminants,
                from_cli,
                choose_variant,
            },
        ),
    )
}

/// What the derive generates for the item; `None` where it panics.
fn items(ast: &DeriveInput) -> (res: Option<Result<InteractiveClapItems, DeriveError>>)
    ensures
        items_answer_is(impl_interactive_clap_spec(*ast), res),
{
    match &ast.data {
        Data::Struct(fields) => match struct_items(ast, fields) {
            None => None,
            Some(Err(e)) => Some(Err(e)),
            Some(Ok(s)) => Some(Ok(InteractiveClapItems::Struct(s))),
        },
        Data::Enum(vs) => match enum_items(ast, vs) {
            None => None,
            Some(Err(e)) => Some(Err(e)),
            Some(Ok(e)) => Some(Ok(InteractiveClapItems::Enum(e))),
        },
        Data::Union => Some(Err(DeriveError::OnlyStructsAndEnums)),
    }
}

/// `#[derive(InteractiveClap)]` on an item on which it does not panic: what it generates,
/// or why it refuses the item.
pub fn impl_interactive_clap(ast: &DeriveInput) -> (res: Result<InteractiveClapItems, DeriveError>)
    requires
        !(impl_interactive_clap_spec(*ast) is Panics),
    ensures
        items_outcome_is(impl_interactive_clap_spec(*ast), res),
{
    match items(ast) {
        Some(r) => r,
        None => Err(DeriveError::OnlyStructsAndEnums),
    }
}

/// `#[derive(InteractiveClap)]` on any item: `None` where the derive panics (a field without
/// a name, a `context` group without `name =`, a field searched for `named_arg` whose name
/// cannot be put in CamelCase, a tuple variant without fields), otherwise what
/// `impl_interactive_clap` gives.
pub fn checked_impl_interactive_clap(ast: &DeriveInput) -> (res: Option<Result<InteractiveClapItems, DeriveError>>)
    ensures
        items_answer_is(impl_interactive_clap_spec(*ast), res),
{
    match items(ast) {
        None => None,
        Some(_) => Some(impl_interactive_clap(ast)),
    }
}

} // verus!
