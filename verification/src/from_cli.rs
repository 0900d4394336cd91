//! `interactive_clap::FromCli`: how each field of a struct gets its value (from the command
//! line, a prompt, or a nested `from_cli`), and how an enum dispatches on its variants.

use vstd::prelude::*;
use crate::model::{DeriveInput, Field, Variant, VariantFields, last_segment_name,
    last_segment_string};
use crate::error::{DeriveError, Outcome, none_iff_panics};
use crate::case::{camel, camel_ok, checked_snake_case_to_camel_case, lowercase};
use crate::cli_args::all_named;
use crate::cli_struct::{named_arg_enum, named_arg_enum_name};
use crate::context::{ContextDir, ContextDirView, ContextView, InteractiveClapAttrsContext,
    context_ok, context_spec, copy_strings, input_context_spec, opt_strings_view, strings_view};
use crate::field_attrs::ic_tokens;
use crate::tokens::{Probe, scan, scan_groups};
use crate::text::{concat2, copy_str};

verus! {

/// The first field that has attributes and an `interactive_clap` group passing the test;
/// the search refuses a token that is not a group, met before it.
pub open spec fn first_marked(fields: Seq<Field>, p: Probe) -> Result<Option<Field>, DeriveError>
    decreases fields.len(),
{
    if fields.len() == 0 {
        Ok(None)
    } else if fields[0].attrs@.len() == 0 {
        first_marked(fields.drop_first(), p)
    } else {
        match scan_groups(ic_tokens(fields[0]), p) {
            Err(_) => Err(DeriveError::OnlyGroupTokens),
            Ok(true) => Ok(Some(fields[0])),
            Ok(false) => first_marked(fields.drop_first(), p),
        }
    }
}

/// The index of the first field that has attributes and an `interactive_clap` group
/// passing the test.
pub fn find_marked(fields: &Vec<Field>, p: &Probe) -> (res: Result<Option<usize>, DeriveError>)
    ensures
        match res {
            Ok(Some(i)) => i < fields@.len() && first_marked(fields@, *p) == Ok::<
                Option<Field>,
                DeriveError,
            >(Some(fields@[i as int])),
            Ok(None) => first_marked(fields@, *p) == Ok::<Option<Field>, DeriveError>(None),
            Err(e) => first_marked(fields@, *p) == Err::<Option<Field>, DeriveError>(e),
        },
{
    let mut i: usize = 0;
    assert(fields@.skip(0) =~= fields@);
    while i < fields.len()
        invariant
            i <= fields.len(),
            first_marked(fields@, *p) == first_marked(fields@.skip(i as int), *p),
        decreases fields.len() - i,
    {
        assert(fields@.skip(i as int)[0] == fields@[i as int]);
        assert(fields@.skip(i as int).drop_first() =~= fields@.skip(i + 1));
        if fields[i].attrs.len() > 0 {
            match scan(&fields[i].attrs, Some("interactive_clap"), p) {
                Err(_) => {
                    return Err(DeriveError::OnlyGroupTokens);
                },
                Ok(true) => {
                    return Ok(Some(i));
                },
                Ok(false) => {},
            }
        }
        i = i + 1;
    }
    Ok(None)
}

/// How a `named_arg` field takes its value: through `from_cli` of its type, unwrapping the
/// helper enum's variant.
#[derive(Debug)]
pub struct NamedArgValue {
    pub ident: String,
    pub ty: String,
    pub enum_name: String,
    pub variant_name: String,
}

/// `NamedArgValue` as plain sequences.
pub struct NamedArgValueView {
    pub ident: Seq<char>,
    pub ty: Seq<char>,
    pub enum_name: Seq<char>,
    pub variant_name: Seq<char>,
}

impl View for NamedArgValue {
    type V = NamedArgValueView;

    open spec fn view(&self) -> NamedArgValueView {
        NamedArgValueView {
            ident: self.ident@,
            ty: self.ty@,
            enum_name: self.enum_name@,
            variant_name: self.variant_name@,
        }
    }
}

/// An optional named-arg value as a view.
pub open spec fn opt_named_view(o: Option<NamedArgValue>) -> Option<NamedArgValueView> {
    match o {
        Some(x) => Some(x@),
        None => None,
    }
}

/// The value of the first field marked by the test as a `named_arg` field; its name is put
/// in CamelCase (a panic when that fails).
pub open spec fn named_arg_value_spec(fields: Seq<Field>, name: Seq<char>, p: Probe) -> Outcome<
    Option<NamedArgValueView>,
> {
    match first_marked(fields, p) {
        Err(e) => Outcome::Refuses(e),
        Ok(None) => Outcome::Gives(None),
        Ok(Some(f)) => match f.ident {
            None => Outcome::Panics,
            Some(id) => if !camel_ok(lowercase(id@)) {
                Outcome::Panics
            } else {
                Outcome::Gives(
                    Some(
                        NamedArgValueView {
                            ident: id@,
                            ty: f.ty.text@,
                            enum_name: named_arg_enum_name(f.ty, name),
                            variant_name: camel(lowercase(id@)),
                        },
                    ),
                )
            },
        },
    }
}

/// Whether the exec outcome `r` is the outcome `o`.
pub open spec fn named_outcome_is(o: Outcome<Option<NamedArgValueView>>, r: Result<Option<NamedArgValue>, DeriveError>) -> bool {
    match r {
        Ok(v) => o == Outcome::Gives(opt_named_view(v)),
        Err(e) => o == Outcome::<Option<NamedArgValueView>>::Refuses(e),
    }
}

/// The value of the first `named_arg` field, as marked by the test; `None` where putting its
/// name in CamelCase panics.
pub fn named_arg_value(fields: &Vec<Field>, name: &str, p: &Probe) -> (res: Option<
    Result<Option<NamedArgValue>, DeriveError>,
>)
    ensures
        none_iff_panics(named_arg_value_spec(fields@, name@, *p), res),
        res matches Some(r) ==> named_outcome_is(named_arg_value_spec(fields@, name@, *p), r),
{
    let found = match find_marked(fields, p) {
        Ok(x) => x,
        Err(e) => {
            return Some(Err(e));
        },
    };
    match found {
        None => Some(Ok(None)),
        Some(i) => {
            let f = &fields[i];
            let id: &String = match &f.ident {
                Some(s) => s,
                None => {
                    return None;
                },
            };
            match checked_snake_case_to_camel_case(copy_str(id.as_str())) {
                None => None,
                Some(variant_name) => Some(
                    Ok(
                        Some(
                            NamedArgValue {
                                ident: copy_str(id.as_str()),
                                ty: copy_str(f.ty.text.as_str()),
                                enum_name: named_arg_enum(&f.ty, name),
                                variant_name,
                            },
                        ),
                    ),
                ),
            }
        },
    }
}

/// How a subcommand or subargs field takes its value: through `from_cli` of its type.
#[derive(Debug)]
pub struct NestedValue {
    pub ident: String,
    pub ty: String,
}

/// `NestedValue` as plain sequences.
pub struct NestedValueView {
    pub ident: Seq<char>,
    pub ty: Seq<char>,
}

impl View for NestedValue {
    type V = NestedValueView;

    open spec fn view(&self) -> NestedValueView {
        NestedValueView { ident: self.ident@, ty: self.ty@ }
    }
}

/// An optional nested value as a view.
pub open spec fn opt_nested_view(o: Option<NestedValue>) -> Option<NestedValueView> {
    match o {
        Some(x) => Some(x@),
        None => None,
    }
}

/// The value of the first field marked by the test.
pub open spec fn nested_value_spec(fields: Seq<Field>, p: Probe) -> Result<Option<NestedValueView>, DeriveError> {
    match first_marked(fields, p) {
        Err(e) => Err(e),
        Ok(None) => Ok(None),
        Ok(Some(f)) => Ok(Some(NestedValueView { ident: f.ident->0@, ty: f.ty.text@ })),
    }
}

/// The value of the first field marked by the test.
pub fn nested_value(fields: &Vec<Field>, p: &Probe) -> (res: Result<Option<NestedValue>, DeriveError>)
    requires
        all_named(fields@),
    ensures
        nested_value_spec(fields@, *p) == match res {
            Ok(v) => Ok(opt_nested_view(v)),
            Err(e) => Err(e),
        },
{
    match find_marked(fields, p)? {
        None => Ok(None),
        Some(i) => {
            let f = &fields[i];
            let id = match &f.ident {
                Some(s) => copy_str(s.as_str()),
                None => String::new(),
            };
            Ok(Some(NestedValue { ident: id, ty: copy_str(f.ty.text.as_str()) }))
        },
    }
}

} // verus!

verus! {

/// An arm of `from_cli` for an enum: a unit variant is taken as it is; a tuple variant's
/// content goes through `from_cli` of its first field's type.
#[derive(Debug)]
pub struct EnumArm {
    pub ident: String,
    /// The type of the first field of a tuple variant; `None` for a unit variant.
    pub ty: Option<String>,
}

/// `EnumArm` as plain sequences.
pub struct EnumArmView {
    pub ident: Seq<char>,
    pub ty: Option<Seq<char>>,
}

impl View for EnumArm {
    type V = EnumArmView;

    open spec fn view(&self) -> EnumArmView {
        EnumArmView {
            ident: self.ident@,
            ty: match self.ty {
                Some(t) => Some(t@),
                None => None,
            },
        }
    }
}

/// The views of a run of arms.
pub open spec fn arm_views(v: Seq<EnumArm>) -> Seq<EnumArmView> {
    v.map_values(|a: EnumArm| a@)
}

/// The arms, in variant order: a variant with named fields is refused, and a tuple variant
/// without fields panics (its first field is read).
pub open spec fn arms_spec(vs: Seq<Variant>) -> Outcome<Seq<EnumArmView>>
    decreases vs.len(),
{
    if vs.len() == 0 {
        Outcome::Gives(seq![])
    } else {
        let first = match vs[0].fields {
            VariantFields::Named => Outcome::Refuses(DeriveError::OnlyUnnamedOrUnitFields),
            VariantFields::Unit => Outcome::Gives(EnumArmView { ident: vs[0].ident@, ty: None }),
            VariantFields::Unnamed(tys) => if tys@.len() == 0 {
                Outcome::Panics
            } else {
                Outcome::Gives(EnumArmView { ident: vs[0].ident@, ty: Some(tys@[0].text@) })
            },
        };
        match first {
            Outcome::Gives(a) => match arms_spec(vs.drop_first()) {
                Outcome::Gives(rest) => Outcome::Gives(seq![a] + rest),
                o => o,
            },
            Outcome::Refuses(e) => Outcome::Refuses(e),
            Outcome::Panics => Outcome::Panics,
        }
    }
}

/// The arms of `from_cli` for the enum.
pub fn arms(vs: &Vec<Variant>) -> (res: Result<Vec<EnumArm>, DeriveError>)
    requires
        !(arms_spec(vs@) is Panics),
    ensures
        match res {
            Ok(v) => arms_spec(vs@) == Outcome::Gives(arm_views(v@)),
            Err(e) => arms_spec(vs@) == Outcome::<Seq<EnumArmView>>::Refuses(e),
        },
{
    let mut out: Vec<EnumArm> = Vec::new();
    let mut i: usize = 0;
    assert(vs@.skip(0) =~= vs@);
    while i < vs.len()
        invariant
            i <= vs.len(),
            !(arms_spec(vs@) is Panics),
            arms_spec(vs@) == match arms_spec(vs@.skip(i as int)) {
                Outcome::Gives(rest) => Outcome::Gives(arm_views(out@) + rest),
                o => o,
            },
        decreases vs.len() - i,
    {
        assert(vs@.skip(i as int)[0] == vs@[i as int]);
        assert(vs@.skip(i as int).drop_first() =~= vs@.skip(i + 1));
        let ghost before = arm_views(out@);
        let v = &vs[i];
        let ty = match &v.fields {
            VariantFields::Named => {
                return Err(DeriveError::OnlyUnnamedOrUnitFields);
            },
            VariantFields::Unit => None,
            VariantFields::Unnamed(tys) => {
                if tys.len() == 0 {
                    return Err(DeriveError::OnlyUnnamedOrUnitFields);
                }
                Some(copy_str(tys[0].text.as_str()))
            },
        };
        out.push(EnumArm { ident: copy_str(v.ident.as_str()), ty });
        proof {
            let x = out@.last()@;
            assert(arm_views(out@) =~= before.push(x));
            if let Outcome::Gives(rest) = arms_spec(vs@.skip(i + 1)) {
                assert(before + (seq![x] + rest) =~= before.push(x) + rest);
            }
        }
        i = i + 1;
    }
    assert(vs@.skip(i as int).len() == 0);
    assert(arm_views(out@) + Seq::<EnumArmView>::empty() =~= arm_views(out@));
    Ok(out)
}

/// Whether making the arms panics: the first variant that has named fields or is a tuple
/// variant without fields is of the latter kind.
pub fn arms_panic(vs: &Vec<Variant>) -> (res: bool)
    ensures
        res == (arms_spec(vs@) is Panics),
{
    let mut i: usize = 0;
    assert(vs@.skip(0) =~= vs@);
    while i < vs.len()
        invariant
            i <= vs.len(),
            (arms_spec(vs@) is Panics) == (arms_spec(vs@.skip(i as int)) is Panics),
        decreases vs.len() - i,
    {
        assert(vs@.skip(i as int)[0] == vs@[i as int]);
        assert(vs@.skip(i as int).drop_first() =~= vs@.skip(i + 1));
        match &vs[i].fields {
            VariantFields::Named => {
                return false;
            },
            VariantFields::Unit => {},
            VariantFields::Unnamed(tys) => {
                if tys.len() == 0 {
                    return true;
                }
            },
        }
        i = i + 1;
    }
    false
}

/// `from_cli` for an enum: the arms, the context types, and `<Name>Context`, through which
/// an output context is made.
#[derive(Debug)]
pub struct FromCliEnumPlan {
    pub name: String,
    pub cli_name: String,
    pub context_name: String,
    pub input_context: ContextDir,
    pub output_context: Option<Vec<String>>,
    pub arms: Vec<EnumArm>,
}

/// `FromCliEnumPlan` as plain sequences.
pub struct FromCliEnumView {
    pub name: Seq<char>,
    pub cli_name: Seq<char>,
    pub context_name: Seq<char>,
    pub input_context: ContextDirView,
    pub output_context: Option<Seq<Seq<char>>>,
    pub arms: Seq<EnumArmView>,
}

impl View for FromCliEnumPlan {
    type V = FromCliEnumView;

    open spec fn view(&self) -> FromCliEnumView {
        FromCliEnumView {
            name: self.name@,
            cli_name: self.cli_name@,
            context_name: self.context_name@,
            input_context: self.input_context@,
            output_context: opt_strings_view(self.output_context),
            arms: arm_views(self.arms@),
        }
    }
}

/// `from_cli` for the enum, `None` when the enum is marked `skip_default_from_cli`.
pub open spec fn from_cli_enum_spec(ast: DeriveInput, vs: Seq<Variant>) -> Outcome<Option<FromCliEnumView>> {
    let c = context_spec(ast);
    if c.is_skip_default_from_cli {
        Outcome::Gives(None)
    } else {
        match arms_spec(vs) {
            Outcome::Gives(a) => Outcome::Gives(
                Some(
                    FromCliEnumView {
                        name: ast.ident@,
                        cli_name: "Cli"@ + ast.ident@,
                        context_name: ast.ident@ + "Context"@,
                        input_context: input_context_spec(c),
                        output_context: c.output_context_dir,
                        arms: a,
                    },
                ),
            ),
            Outcome::Refuses(e) => Outcome::Refuses(e),
            Outcome::Panics => Outcome::Panics,
        }
    }
}

/// Whether the exec outcome `r` is the outcome `o`.
pub open spec fn enum_outcome_is(o: Outcome<Option<FromCliEnumView>>, r: Result<Option<FromCliEnumPlan>, DeriveError>) -> bool {
    match r {
        Ok(Some(p)) => o == Outcome::Gives(Some(p@)),
        Ok(None) => o == Outcome::<Option<FromCliEnumView>>::Gives(None),
        Err(e) => o == Outcome::<Option<FromCliEnumView>>::Refuses(e),
    }
}

/// `from_cli` for an enum with the variants `variants`.
pub fn from_cli_enum(ast: &DeriveInput, variants: &Vec<Variant>) -> (res: Result<Option<FromCliEnumPlan>, DeriveError>)
    requires
        context_ok(*ast),
        !(from_cli_enum_spec(*ast, variants@) is Panics),
    ensures
        enum_outcome_is(from_cli_enum_spec(*ast, variants@), res),
{
    let c = InteractiveClapAttrsContext::new(ast);
    if c.is_skip_default_from_cli {
        return Ok(None);
    }
    let arms = arms(variants)?;
    let output_context = match &c.output_context_dir {
        Some(v) => Some(copy_strings(v)),
        None => None,
    };
    Ok(
        Some(
            FromCliEnumPlan {
                name: copy_str(ast.ident.as_str()),
                cli_name: concat2("Cli", ast.ident.as_str()),
                context_name: concat2(ast.ident.as_str(), "Context"),
                input_context: c.get_input_context_dir(),
                output_context,
                arms,
            },
        ),
    )
}

} // verus!

verus! {

/// The names of the fields without a subcommand (no `named_arg` nor `subcommand` group in
/// any attribute), in order.
pub open spec fn without_sub_idents(fields: Seq<Field>) -> Seq<Seq<char>>
    decreases fields.len(),
{
    if fields.len() == 0 {
        seq![]
    } else {
        without_sub_idents(fields.drop_last()) + if !crate::tokens::any_group_passes(
            crate::field_attrs::all_tokens(fields.last()),
            Probe::Either("named_arg", "subcommand"),
        ) {
            seq![fields.last().ident->0@]
        } else {
            seq![]
        }
    }
}

/// The names of the fields without a `skip_default_from_cli` group, in order.
pub open spec fn without_skip_idents(fields: Seq<Field>) -> Seq<Seq<char>>
    decreases fields.len(),
{
    if fields.len() == 0 {
        seq![]
    } else {
        without_skip_idents(fields.drop_last()) + if !crate::tokens::any_group_passes(
            ic_tokens(fields.last()),
            Probe::Contains("skip_default_from_cli"),
        ) {
            seq![fields.last().ident->0@]
        } else {
            seq![]
        }
    }
}

/// The names that `field_with_skip_default_from_cli` gives, field after field; a refusal of
/// the first field that refuses.
pub open spec fn skip_list_spec(fields: Seq<Field>) -> Result<Seq<Seq<char>>, DeriveError>
    decreases fields.len(),
{
    if fields.len() == 0 {
        Ok(seq![])
    } else {
        match crate::field_attrs::skip_default_from_cli_spec(fields[0]) {
            Err(e) => Err(e),
            Ok(o) => match skip_list_spec(fields.drop_first()) {
                Err(e) => Err(e),
                Ok(rest) => Ok(
                    match o {
                        Some(s) => seq![s] + rest,
                        None => rest,
                    },
                ),
            },
        }
    }
}

/// The names of the fields without a subcommand, in order.
pub fn without_sub_idents_exec(fields: &Vec<Field>) -> (res: Vec<String>)
    requires
        all_named(fields@),
    ensures
        strings_view(res@) == without_sub_idents(fields@),
{
    let mut out: Vec<String> = Vec::new();
    let mut i: usize = 0;
    assert(strings_view(out@) =~= Seq::<Seq<char>>::empty());
    while i < fields.len()
        invariant
            i <= fields.len(),
            all_named(fields@),
            strings_view(out@) == without_sub_idents(fields@.take(i as int)),
        decreases fields.len() - i,
    {
        assert(fields@.take(i + 1).drop_last() =~= fields@.take(i as int));
        assert(fields@[i as int].ident is Some);
        let ghost before = strings_view(out@);
        if crate::field_attrs::is_field_without_subcommand(&fields[i]) {
            let id = match &fields[i].ident {
                Some(s) => copy_str(s.as_str()),
                None => String::new(),
            };
            out.push(id);
            assert(strings_view(out@) =~= before.push(out@.last()@));
        } else {
            assert(before + Seq::<Seq<char>>::empty() =~= before);
        }
        i = i + 1;
    }
    assert(fields@.take(fields.len() as int) =~= fields@);
    out
}

fn without_skip_list(fields: &Vec<Field>) -> (res: Vec<String>)
    requires
        all_named(fields@),
    ensures
        strings_view(res@) == without_skip_idents(fields@),
{
    let mut out: Vec<String> = Vec::new();
    let mut i: usize = 0;
    assert(strings_view(out@) =~= Seq::<Seq<char>>::empty());
    while i < fields.len()
        invariant
            i <= fields.len(),
            all_named(fields@),
            strings_view(out@) == without_skip_idents(fields@.take(i as int)),
        decreases fields.len() - i,
    {
        assert(fields@.take(i + 1).drop_last() =~= fields@.take(i as int));
        assert(fields@[i as int].ident is Some);
        let ghost before = strings_view(out@);
        if crate::field_attrs::is_field_without_skip_default_from_cli(&fields[i]) {
            let id = match &fields[i].ident {
                Some(s) => copy_str(s.as_str()),
                None => String::new(),
            };
            out.push(id);
            assert(strings_view(out@) =~= before.push(out@.last()@));
        } else {
            assert(before + Seq::<Seq<char>>::empty() =~= before);
        }
        i = i + 1;
    }
    assert(fields@.take(fields.len() as int) =~= fields@);
    out
}

/// The names of the fields marked `skip_default_from_cli`, field after field.
pub fn skip_list(fields: &Vec<Field>) -> (res: Result<Vec<String>, DeriveError>)
    requires
        all_named(fields@),
    ensures
        skip_list_spec(fields@) == match res {
            Ok(v) => Ok(strings_view(v@)),
            Err(e) => Err(e),
        },
{
    let mut out: Vec<String> = Vec::new();
    let mut i: usize = 0;
    assert(fields@.skip(0) =~= fields@);
    assert(strings_view(out@) =~= Seq::<Seq<char>>::empty());
    while i < fields.len()
        invariant
            i <= fields.len(),
            all_named(fields@),
            skip_list_spec(fields@) == match skip_list_spec(fields@.skip(i as int)) {
                Err(e) => Err(e),
                Ok(rest) => Ok(strings_view(out@) + rest),
            },
        decreases fields.len() - i,
    {
        assert(fields@.skip(i as int)[0] == fields@[i as int]);
        assert(fields@.skip(i as int).drop_first() =~= fields@.skip(i + 1));
        assert(fields@[i as int].ident is Some);
        let ghost before = strings_view(out@);
        match crate::field_attrs::field_with_skip_default_from_cli(&fields[i])? {
            Some(s) => {
                out.push(s);
                proof {
                    let x = out@.last()@;
                    assert(strings_view(out@) =~= before.push(x));
                    if let Ok(rest) = skip_list_spec(fields@.skip(i + 1)) {
                        assert(before + (seq![x] + rest) =~= before.push(x) + rest);
                    }
                }
            },
            None => {},
        }
        i = i + 1;
    }
    assert(fields@.skip(i as int).len() == 0);
    assert(strings_view(out@) + Seq::<Seq<char>>::empty() =~= strings_view(out@));
    Ok(out)
}

/// How a getter ends when no value was given on the command line: it calls the field's
/// prompt, then either passes the prompt's result on as it is, or, where the prompt may
/// be left without a value and the field is not an `Option`, turns a left prompt into an
/// error (never a panic).
#[derive(Clone, Copy, PartialEq, Eq, Structural, Debug)]
pub enum WhenPromptLeft {
    /// The prompt's result is the getter's result.
    PassOn,
    /// A prompt left without a value makes the getter fail with an error.
    Fail,
}

/// `fn from_cli_<field>(optional_cli_<field>: <cli type>, context: &<context>) -> Result<ty>`:
/// the value given on the command line, or else the prompt's.
#[derive(Debug)]
pub struct GetArgFn {
    pub ident: String,
    pub ty: String,
    pub cli_type: crate::cli_struct::CliFieldType,
    pub context: ContextDir,
    /// Whether the field's type is an `Option` (by its last path segment).
    pub optional: bool,
    /// How the getter ends when the value is not on the command line.
    pub when_left: WhenPromptLeft,
}

/// `GetArgFn` as plain sequences.
pub struct GetArgFnView {
    pub ident: Seq<char>,
    pub ty: Seq<char>,
    pub cli_type: crate::cli_struct::CliFieldTypeView,
    pub context: ContextDirView,
    pub optional: bool,
    pub when_left: WhenPromptLeft,
}

/// How a getter ends when the value is not on the command line: the current derive's
/// prompt gives `Ok(None)` when it is left, so a field that is not an `Option` fails there;
/// otherwise (an `Option` field, or the classic derive, whose prompts always give a value)
/// the prompt's result is passed on.
pub open spec fn when_left_spec(classic: bool, optional: bool) -> WhenPromptLeft {
    if !classic && !optional {
        WhenPromptLeft::Fail
    } else {
        WhenPromptLeft::PassOn
    }
}

impl View for GetArgFn {
    type V = GetArgFnView;

    open spec fn view(&self) -> GetArgFnView {
        GetArgFnView {
            ident: self.ident@,
            ty: self.ty@,
            cli_type: self.cli_type@,
            context: self.context@,
            optional: self.optional,
            when_left: self.when_left,
        }
    }
}

/// The views of a run of getters.
pub open spec fn getter_views(v: Seq<GetArgFn>) -> Seq<GetArgFnView> {
    v.map_values(|g: GetArgFn| g@)
}

/// Whether the field gets a getter: its name is among the fields without subcommand, and
/// among `l2` (or, in the classic derive, not among the names marked `skip_default_from_cli`).
pub open spec fn gets_getter(f: Field, l1: Seq<Seq<char>>, l2: Seq<Seq<char>>, classic: bool) -> bool {
    let id = f.ident->0@;
    l1.contains(id) && if classic {
        !l2.contains(id)
    } else {
        l2.contains(id)
    }
}

/// The getters of the fields that get one, in field order; a field type that
/// `cli_field_type` refuses is refused.
pub open spec fn getters_spec(
    fs: Seq<Field>,
    l1: Seq<Seq<char>>,
    l2: Seq<Seq<char>>,
    classic: bool,
    ctx: ContextDirView,
) -> Result<Seq<GetArgFnView>, DeriveError>
    decreases fs.len(),
{
    if fs.len() == 0 {
        Ok(seq![])
    } else {
        let f = fs[0];
        let rest = getters_spec(fs.drop_first(), l1, l2, classic, ctx);
        if gets_getter(f, l1, l2, classic) {
            match crate::cli_struct::cli_field_type_spec(f.ty) {
                Err(e) => Err(e),
                Ok(t) => match rest {
                    Err(e) => Err(e),
                    Ok(r) => Ok(
                        seq![
                            GetArgFnView {
                                ident: f.ident->0@,
                                ty: f.ty.text@,
                                cli_type: t,
                                context: ctx,
                                optional: last_segment_name(f.ty) == "Option"@,
                                when_left: when_left_spec(classic, last_segment_name(f.ty) == "Option"@),
                            },
                        ] + r,
                    ),
                },
            }
        } else {
            rest
        }
    }
}

fn copy_context(c: &ContextDir) -> (res: ContextDir)
    ensures
        res@ == c@,
{
    match c {
        ContextDir::Tokens(v) => ContextDir::Tokens(copy_strings(v)),
        ContextDir::Unit => ContextDir::Unit,
    }
}

/// The getters of the fields that get one.
pub fn getters(
    fields: &Vec<Field>,
    l1: &Vec<String>,
    l2: &Vec<String>,
    classic: bool,
    ctx: &ContextDir,
) -> (res: Result<Vec<GetArgFn>, DeriveError>)
    requires
        all_named(fields@),
    ensures
        getters_spec(fields@, strings_view(l1@), strings_view(l2@), classic, ctx@) == match res {
            Ok(v) => Ok(getter_views(v@)),
            Err(e) => Err(e),
        },
{
    let ghost a = strings_view(l1@);
    let ghost b = strings_view(l2@);
    let mut out: Vec<GetArgFn> = Vec::new();
    let mut i: usize = 0;
    assert(fields@.skip(0) =~= fields@);
    while i < fields.len()
        invariant
            i <= fields.len(),
            all_named(fields@),
            a == strings_view(l1@),
            b == strings_view(l2@),
            getters_spec(fields@, a, b, classic, ctx@) == match getters_spec(
                fields@.skip(i as int),
                a,
                b,
                classic,
                ctx@,
            ) {
                Err(e) => Err(e),
                Ok(rest) => Ok(getter_views(out@) + rest),
            },
        decreases fields.len() - i,
    {
        assert(fields@.skip(i as int)[0] == fields@[i as int]);
        assert(fields@.skip(i as int).drop_first() =~= fields@.skip(i + 1));
        assert(fields@[i as int].ident is Some);
        let f = &fields[i];
        let id: &String = match &f.ident {
            Some(s) => s,
            None => {
                return Ok(out);
            },
        };
        let in1 = crate::cli_struct::contains_string(l1, id.as_str());
        let in2 = crate::cli_struct::contains_string(l2, id.as_str());
        let takes = in1 && if classic {
            !in2
        } else {
            in2
        };
        if takes {
            let ghost before = getter_views(out@);
            let t = crate::cli_struct::cli_field_type(&f.ty)?;
            let last = last_segment_string(&f.ty);
            let optional = crate::text::str_eq(last.as_str(), "Option");
            out.push(
                GetArgFn {
                    ident: copy_str(id.as_str()),
                    ty: copy_str(f.ty.text.as_str()),
                    cli_type: t,
                    context: copy_context(ctx),
                    optional,
                    when_left: if !classic && !optional {
                        WhenPromptLeft::Fail
                    } else {
                        WhenPromptLeft::PassOn
                    },
                },
            );
            proof {
                let x = out@.last()@;
                assert(getter_views(out@) =~= before.push(x));
                if let Ok(rest) = getters_spec(fields@.skip(i + 1), a, b, classic, ctx@) {
                    assert(before + (seq![x] + rest) =~= before.push(x) + rest);
                }
            }
        }
        i = i + 1;
    }
    assert(fields@.skip(i as int).len() == 0);
    assert(getter_views(out@) + Seq::<GetArgFnView>::empty() =~= getter_views(out@));
    Ok(out)
}

/// The getters of the current derive.
pub open spec fn from_cli_arg_spec(ast: DeriveInput, fields: Seq<Field>) -> Result<Seq<GetArgFnView>, DeriveError> {
    getters_spec(
        fields,
        without_sub_idents(fields),
        without_skip_idents(fields),
        false,
        input_context_spec(context_spec(ast)),
    )
}

/// The getters of the current derive: for each field without subcommand and without
/// `skip_default_from_cli`.
pub fn from_cli_arg_fns(ast: &DeriveInput, fields: &Vec<Field>) -> (res: Result<Vec<GetArgFn>, DeriveError>)
    requires
        context_ok(*ast),
        all_named(fields@),
    ensures
        from_cli_arg_spec(*ast, fields@) == match res {
            Ok(v) => Ok(getter_views(v@)),
            Err(e) => Err(e),
        },
{
    let c = InteractiveClapAttrsContext::new(ast);
    let l1 = without_sub_idents_exec(fields);
    let l2 = without_skip_list(fields);
    let ctx = c.get_input_context_dir();
    getters(fields, &l1, &l2, false, &ctx)
}

/// The getters of the classic derive: none when the struct is marked `skip_default_from_cli`;
/// the list of fields marked `skip_default_from_cli` is made first.
pub open spec fn classic_from_cli_arg_spec(ast: DeriveInput, fields: Seq<Field>) -> Result<Seq<GetArgFnView>, DeriveError> {
    let c = context_spec(ast);
    if c.is_skip_default_from_cli {
        Ok(seq![])
    } else {
        match skip_list_spec(fields) {
            Err(e) => Err(e),
            Ok(l2) => getters_spec(fields, without_sub_idents(fields), l2, true, input_context_spec(c)),
        }
    }
}

/// The getters of the classic derive.
pub fn classic_from_cli_arg_fns(ast: &DeriveInput, fields: &Vec<Field>) -> (res: Result<Vec<GetArgFn>, DeriveError>)
    requires
        context_ok(*ast),
        all_named(fields@),
    ensures
        classic_from_cli_arg_spec(*ast, fields@) == match res {
            Ok(v) => Ok(getter_views(v@)),
            Err(e) => Err(e),
        },
{
    let c = InteractiveClapAttrsContext::new(ast);
    if c.is_skip_default_from_cli {
        let out: Vec<GetArgFn> = Vec::new();
        assert(getter_views(out@) =~= Seq::<GetArgFnView>::empty());
        return Ok(out);
    }
    let l1 = without_sub_idents_exec(fields);
    let l2 = skip_list(fields)?;
    let ctx = c.get_input_context_dir();
    getters(fields, &l1, &l2, true, &ctx)
}

} // verus!
