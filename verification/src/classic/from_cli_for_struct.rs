//! `from_cli` for a struct in the classic derive, returning the struct itself.

use vstd::prelude::*;
use crate::model::{DeriveInput, Field};
use crate::error::{DeriveError, Outcome, none_iff_panics};
use crate::cli_args::all_named;
use crate::context::{ContextDir, ContextDirView, InteractiveClapAttrsContext, context_ok,
    context_spec, input_context_spec, strings_view};
use crate::field_attrs::ic_tokens;
use crate::from_cli::{NamedArgValue, NamedArgValueView, NestedValue, NestedValueView,
    named_arg_value, named_arg_value_spec, nested_value, nested_value_spec, opt_named_view,
    opt_nested_view, without_sub_idents};
use crate::scope::{scope_name, scope_name_spec};
use crate::tokens::{Probe, scan, scan_groups};
use crate::text::{concat2, copy_str};

verus! {

/// Whether a field takes its value through `from_cli_<field>`: a field without attributes
/// does; otherwise the first `interactive_clap` token that is a group mentioning neither
/// `named_arg` nor `subcommand` decides it (a token that is not a group is refused).
pub open spec fn takes_value(f: Field) -> Result<bool, DeriveError> {
    if f.attrs@.len() == 0 {
        Ok(true)
    } else {
        match scan_groups(ic_tokens(f), Probe::Neither("named_arg", "subcommand")) {
            Err(_) => Err(DeriveError::OnlyGroupTokens),
            Ok(b) => Ok(b),
        }
    }
}

/// The names of the fields that take their value through `from_cli_<field>`, in order.
pub open spec fn classic_values_spec(fields: Seq<Field>) -> Result<Seq<Seq<char>>, DeriveError>
    decreases fields.len(),
{
    if fields.len() == 0 {
        Ok(seq![])
    } else {
        match takes_value(fields[0]) {
            Err(e) => Err(e),
            Ok(b) => match classic_values_spec(fields.drop_first()) {
                Err(e) => Err(e),
                Ok(rest) => Ok(
                    if b {
                        seq![fields[0].ident->0@] + rest
                    } else {
                        rest
                    },
                ),
            },
        }
    }
}

fn classic_values(fields: &Vec<Field>) -> (res: Result<Vec<String>, DeriveError>)
    requires
        all_named(fields@),
    ensures
        classic_values_spec(fields@) == match res {
            Ok(v) => Ok(strings_view(v@)),
            Err(e) => Err(e),
        },
{
    let mut out: Vec<String> = Vec::new();
    let mut i: usize = 0;
    assert(fields@.skip(0) =~= fields@);
    assert(strings_view(out@) =~= Seq::<Seq<char>>::empty());
    while i < fields.len()
        invariant
            i <= fields.len(),
            all_named(fields@),
            classic_values_spec(fields@) == match classic_values_spec(fields@.skip(i as int)) {
                Err(e) => Err(e),
                Ok(rest) => Ok(strings_view(out@) + rest),
            },
        decreases fields.len() - i,
    {
        assert(fields@.skip(i as int)[0] == fields@[i as int]);
        assert(fields@.skip(i as int).drop_first() =~= fields@.skip(i + 1));
        assert(fields@[i as int].ident is Some);
        let f = &fields[i];
        let takes = if f.attrs.len() == 0 {
            true
        } else {
            match scan(&f.attrs, Some("interactive_clap"), &Probe::Neither("named_arg", "subcommand")) {
                Err(_) => {
                    return Err(DeriveError::OnlyGroupTokens);
                },
                Ok(b) => b,
            }
        };
        if takes {
            let ghost before = strings_view(out@);
            let id = match &f.ident {
                Some(s) => copy_str(s.as_str()),
                None => String::new(),
            };
            out.push(id);
            proof {
                let x = out@.last()@;
                assert(strings_view(out@) =~= before.push(x));
                if let Ok(rest) = classic_values_spec(fields@.skip(i + 1)) {
                    assert(before + (seq![x] + rest) =~= before.push(x) + rest);
                }
            }
        }
        i = i + 1;
    }
    assert(fields@.skip(i as int).len() == 0);
    assert(strings_view(out@) + Seq::<Seq<char>>::empty() =~= strings_view(out@));
    Ok(out)
}

/// How a field of the struct is filled at the end: from the new context scope (fields
/// without subcommand) or from the local of the same name.
#[derive(Debug)]
pub struct StructFieldInit {
    pub ident: String,
    pub from_scope: bool,
}

/// `StructFieldInit` as plain sequences.
pub struct StructFieldInitView {
    pub ident: Seq<char>,
    pub from_scope: bool,
}

impl View for StructFieldInit {
    type V = StructFieldInitView;

    open spec fn view(&self) -> StructFieldInitView {
        StructFieldInitView { ident: self.ident@, from_scope: self.from_scope }
    }
}

/// How the fields are filled, in field order.
pub open spec fn inits_spec(fields: Seq<Field>, scope: Seq<Seq<char>>) -> Seq<StructFieldInitView>
    decreases fields.len(),
{
    if fields.len() == 0 {
        seq![]
    } else {
        inits_spec(fields.drop_last(), scope) + seq![
            StructFieldInitView {
                ident: fields.last().ident->0@,
                from_scope: scope.contains(fields.last().ident->0@),
            },
        ]
    }
}

/// The views of a run of field inits.
pub open spec fn init_views(v: Seq<StructFieldInit>) -> Seq<StructFieldInitView> {
    v.map_values(|x: StructFieldInit| x@)
}

fn inits(fields: &Vec<Field>, scope: &Vec<String>) -> (res: Vec<StructFieldInit>)
    requires
        all_named(fields@),
    ensures
        init_views(res@) == inits_spec(fields@, strings_view(scope@)),
{
    let mut out: Vec<StructFieldInit> = Vec::new();
    let mut i: usize = 0;
    assert(init_views(out@) =~= Seq::<StructFieldInitView>::empty());
    while i < fields.len()
        invariant
            i <= fields.len(),
            all_named(fields@),
            init_views(out@) == inits_spec(fields@.take(i as int), strings_view(scope@)),
        decreases fields.len() - i,
    {
        assert(fields@.take(i + 1).drop_last() =~= fields@.take(i as int));
        assert(fields@[i as int].ident is Some);
        let ghost before = init_views(out@);
        let id = match &fields[i].ident {
            Some(s) => copy_str(s.as_str()),
            None => String::new(),
        };
        let from_scope = crate::cli_struct::contains_string(scope, id.as_str());
        out.push(StructFieldInit { ident: id, from_scope });
        assert(init_views(out@) =~= before.push(out@.last()@));
        i = i + 1;
    }
    assert(fields@.take(fields.len() as int) =~= fields@);
    out
}

/// `from_cli` for a struct in the classic derive.
#[derive(Debug)]
pub struct ClassicFromCliStructPlan {
    pub name: String,
    pub cli_name: String,
    pub context: ContextDir,
    pub scope_name: String,
    /// The fields without subcommand, which make the new context scope.
    pub scope_fields: Vec<String>,
    /// The fields that take their value through `from_cli_<field>`.
    pub values: Vec<String>,
    pub named_arg: Option<NamedArgValue>,
    pub subcommand: Option<NestedValue>,
    /// Whether an output context is given: the nested values then go through
    /// `<Name>Context::from_previous_context`.
    pub with_output_context: bool,
    pub context_for_struct: String,
    pub struct_fields: Vec<StructFieldInit>,
}

/// `ClassicFromCliStructPlan` as plain sequences.
pub struct ClassicFromCliStructView {
    pub name: Seq<char>,
    pub cli_name: Seq<char>,
    pub context: ContextDirView,
    pub scope_name: Seq<char>,
    pub scope_fields: Seq<Seq<char>>,
    pub values: Seq<Seq<char>>,
    pub named_arg: Option<NamedArgValueView>,
    pub subcommand: Option<NestedValueView>,
    pub with_output_context: bool,
    pub context_for_struct: Seq<char>,
    pub struct_fields: Seq<StructFieldInitView>,
}

impl View for ClassicFromCliStructPlan {
    type V = ClassicFromCliStructView;

    open spec fn view(&self) -> ClassicFromCliStructView {
        ClassicFromCliStructView {
            name: self.name@,
            cli_name: self.cli_name@,
            context: self.context@,
            scope_name: self.scope_name@,
            scope_fields: strings_view(self.scope_fields@),
            values: strings_view(self.values@),
            named_arg: opt_named_view(self.named_arg),
            subcommand: opt_nested_view(self.subcommand),
            with_output_context: self.with_output_context,
            context_for_struct: self.context_for_struct@,
            struct_fields: init_views(self.struct_fields@),
        }
    }
}

/// `from_cli` for the struct, `None` when it is marked `skip_default_from_cli`. The
/// `named_arg` field is looked for first, then the subcommand field, then the values.
pub open spec fn classic_from_cli_struct_spec(ast: DeriveInput, fields: Seq<Field>) -> Outcome<
    Option<ClassicFromCliStructView>,
> {
    let c = context_spec(ast);
    if c.is_skip_default_from_cli {
        Outcome::Gives(None)
    } else {
        match named_arg_value_spec(fields, ast.ident@, Probe::Contains("named_arg")) {
            Outcome::Panics => Outcome::Panics,
            Outcome::Refuses(e) => Outcome::Refuses(e),
            Outcome::Gives(na) => match nested_value_spec(fields, Probe::Contains("subcommand")) {
                Err(e) => Outcome::Refuses(e),
                Ok(sc) => match classic_values_spec(fields) {
                    Err(e) => Outcome::Refuses(e),
                    Ok(vals) => Outcome::Gives(
                        Some(
                            ClassicFromCliStructView {
                                name: ast.ident@,
                                cli_name: "Cli"@ + ast.ident@,
                                context: input_context_spec(c),
                                scope_name: scope_name_spec(ast.ident@),
                                scope_fields: without_sub_idents(fields),
                                values: vals,
                                named_arg: na,
                                subcommand: sc,
                                with_output_context: c.output_context_dir is Some,
                                context_for_struct: ast.ident@ + "Context"@,
                                struct_fields: inits_spec(fields, without_sub_idents(fields)),
                            },
                        ),
                    ),
                },
            },
        }
    }
}

/// Whether the exec outcome `r` is the outcome `o`.
pub open spec fn classic_outcome_is(o: Outcome<Option<ClassicFromCliStructView>>, r: Result<Option<ClassicFromCliStructPlan>, DeriveError>) -> bool {
    match r {
        Ok(Some(p)) => o == Outcome::Gives(Some(p@)),
        Ok(None) => o == Outcome::<Option<ClassicFromCliStructView>>::Gives(None),
        Err(e) => o == Outcome::<Option<ClassicFromCliStructView>>::Refuses(e),
    }
}

/// `from_cli` for a struct in the classic derive.
pub fn from_cli_for_struct(ast: &DeriveInput, fields: &Vec<Field>) -> (res: Result<Option<ClassicFromCliStructPlan>, DeriveError>)
    requires
        context_ok(*ast),
        all_named(fields@),
        !(classic_from_cli_struct_spec(*ast, fields@) is Panics),
    ensures
        classic_outcome_is(classic_from_cli_struct_spec(*ast, fields@), res),
{
    let c = InteractiveClapAttrsContext::new(ast);
    if c.is_skip_default_from_cli {
        return Ok(None);
    }
    let scope = crate::from_cli::without_sub_idents_exec(fields);
    let named_arg = match named_arg_value(fields, ast.ident.as_str(), &Probe::Contains("named_arg")) {
        Some(r) => r?,
        None => {
            return Ok(None);
        },
    };
    let subcommand = nested_value(fields, &Probe::Contains("subcommand"))?;
    let values = classic_values(fields)?;
    let struct_fields = inits(fields, &scope);
    Ok(
        Some(
            ClassicFromCliStructPlan {
                name: copy_str(ast.ident.as_str()),
                cli_name: concat2("Cli", ast.ident.as_str()),
                context: c.get_input_context_dir(),
                scope_name: scope_name(ast.ident.as_str()),
                scope_fields: scope,
                values,
                named_arg,
                subcommand,
                with_output_context: c.output_context_dir.is_some(),
                context_for_struct: concat2(ast.ident.as_str(), "Context"),
                struct_fields,
            },
        ),
    )
}

} // verus!

verus! {

/// `from_cli` for a struct in the classic derive where it returns, and `None` where it panics
/// (the `named_arg` field's name cannot be put in CamelCase).
pub fn checked_from_cli_for_struct(ast: &DeriveInput, fields: &Vec<Field>) -> (res: Option<
    Result<Option<ClassicFromCliStructPlan>, DeriveError>,
>)
    requires
        context_ok(*ast),
        all_named(fields@),
    ensures
        none_iff_panics(classic_from_cli_struct_spec(*ast, fields@), res),
        res matches Some(r) ==> classic_outcome_is(classic_from_cli_struct_spec(*ast, fields@), r),
{
    let c = InteractiveClapAttrsContext::new(ast);
    if !c.is_skip_default_from_cli
        && named_arg_value(fields, ast.ident.as_str(), &Probe::Contains("named_arg")).is_none() {
        return None;
    }
    Some(from_cli_for_struct(ast, fields))
}

} // verus!
