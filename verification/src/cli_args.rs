//! The `ToCliArgs` derive: which arguments each field of a `Cli...` struct, or each variant
//! of a `Cli...` enum, writes back onto a command line.

use vstd::prelude::*;
use crate::model::{Attr, AttrToken, Data, DeriveInput, Field, Token, TokenKind, Variant, VariantFields,
    attr_path_is, path_is, starts_with_vec_spec, type_starts_with_vec};
use crate::error::DeriveError;
use crate::tokens::tokens_of;
use crate::case::{kebab, to_kebab_case};
use crate::text::{concat2, copy_str, str_eq};
use crate::context::strings_view;
use std::collections::VecDeque;

verus! {

/// How one field is written back as arguments: pushed at the front of the list, except the
/// arguments of a flattened field, which are appended at its back.
#[derive(Debug)]
pub enum CliArgs {
    /// Nothing is written.
    Nothing,
    /// `if let Some(arg) = &self.<field> { args.push_front(arg.to_string()) }`
    Value(String),
    /// `if let Some(arg) = &self.<field> { args.append(&mut arg.to_cli_args()) }`
    Flattened(String),
    /// A `bool` flag: `if self.<field> { args.push_front("--<name>") }`, with the field and
    /// its kebab-case name.
    Flag(String, String),
    /// `--<name> <value>` when the field is set, with the field and its kebab-case name.
    LongOption(String, String),
    /// A `long` field whose type is a `Vec`: `--<name> <value>` once for each of its values,
    /// in their order, with the field and its kebab-case name.
    RepeatedOption(String, String),
    /// `--<literal> <value>` when the field is set, with the field and the literal given to
    /// `#[clap(...)]`, printed with its quotes.
    NamedOption(String, String),
}

/// `CliArgs` as plain sequences.
pub enum CliArgsView {
    Nothing,
    Value(Seq<char>),
    Flattened(Seq<char>),
    Flag(Seq<char>, Seq<char>),
    LongOption(Seq<char>, Seq<char>),
    RepeatedOption(Seq<char>, Seq<char>),
    NamedOption(Seq<char>, Seq<char>),
}

impl View for CliArgs {
    type V = CliArgsView;

    open spec fn view(&self) -> CliArgsView {
        match self {
            CliArgs::Nothing => CliArgsView::Nothing,
            CliArgs::Value(f) => CliArgsView::Value(f@),
            CliArgs::Flattened(f) => CliArgsView::Flattened(f@),
            CliArgs::Flag(f, n) => CliArgsView::Flag(f@, n@),
            CliArgs::LongOption(f, n) => CliArgsView::LongOption(f@, n@),
            CliArgs::RepeatedOption(f, n) => CliArgsView::RepeatedOption(f@, n@),
            CliArgs::NamedOption(f, n) => CliArgsView::NamedOption(f@, n@),
        }
    }
}

/// What a field of a `Cli...` struct contributes to `to_cli_args`.
#[derive(Debug)]
pub enum InteractiveClapAttrsCliField {
    /// Arguments pushed at the front of the list.
    RegularField(CliArgs),
    /// A `#[clap(subcommand)]` field, whose own arguments start the list.
    SubcommandField(String),
}

/// `InteractiveClapAttrsCliField` as plain sequences.
pub enum CliFieldView {
    RegularField(CliArgsView),
    SubcommandField(Seq<char>),
}

impl View for InteractiveClapAttrsCliField {
    type V = CliFieldView;

    open spec fn view(&self) -> CliFieldView {
        match self {
            InteractiveClapAttrsCliField::RegularField(a) => CliFieldView::RegularField(a@),
            InteractiveClapAttrsCliField::SubcommandField(f) => CliFieldView::SubcommandField(f@),
        }
    }
}

/// The three candidates that the attributes of a field set, latest setting first:
/// arguments without a name (`value_enum`, `flatten`), a `long` flag, option or (for a
/// `Vec`) repeated option, and an option named by a literal.
pub struct ArgsChoice {
    pub plain: CliArgsView,
    pub unnamed: CliArgsView,
    pub named: CliArgsView,
}

/// What one identifier or literal inside `#[clap(...)]` does to the candidates; `None`
/// when it is `subcommand`, which decides the field at once.
pub open spec fn step_item(st: ArgsChoice, t: Token, f: Seq<char>, is_bool: bool, is_vec: bool) -> Option<
    ArgsChoice,
> {
    if t.kind == TokenKind::Ident {
        if t.text@ == "subcommand"@ {
            None
        } else {
            let plain = if t.text@ == "flatten"@ {
                CliArgsView::Flattened(f)
            } else {
                st.plain
            };
            if t.text@ == "value_enum"@ {
                Some(ArgsChoice { plain: CliArgsView::Value(f), ..st })
            } else if t.text@ == "long"@ {
                Some(
                    ArgsChoice {
                        plain,
                        unnamed: if is_bool {
                            CliArgsView::Flag(f, kebab(f))
                        } else if is_vec {
                            CliArgsView::RepeatedOption(f, kebab(f))
                        } else {
                            CliArgsView::LongOption(f, kebab(f))
                        },
                        ..st
                    },
                )
            } else {
                Some(ArgsChoice { plain, ..st })
            }
        }
    } else if t.kind == TokenKind::Literal {
        Some(ArgsChoice { named: CliArgsView::NamedOption(f, t.text@), ..st })
    } else {
        Some(st)
    }
}

/// The candidates after the items of one group, or `None` when `subcommand` comes up.
pub open spec fn fold_items(items: Seq<Token>, st: ArgsChoice, f: Seq<char>, is_bool: bool, is_vec: bool) -> Option<
    ArgsChoice,
>
    decreases items.len(),
{
    if items.len() == 0 {
        Some(st)
    } else {
        match step_item(st, items[0], f, is_bool, is_vec) {
            None => None,
            Some(s) => fold_items(items.drop_first(), s, f, is_bool, is_vec),
        }
    }
}

/// The candidates after the tokens of the `#[clap(...)]` attributes, `Ok(None)` when
/// `subcommand` comes up first, and a refusal at a token that is not a group.
pub open spec fn fold_clap_tokens(ts: Seq<AttrToken>, st: ArgsChoice, f: Seq<char>, is_bool: bool, is_vec: bool) -> Result<
    Option<ArgsChoice>,
    DeriveError,
>
    decreases ts.len(),
{
    if ts.len() == 0 {
        Ok(Some(st))
    } else if ts[0].kind != TokenKind::Group {
        Err(DeriveError::OnlyGroupTokens)
    } else {
        match fold_items(ts[0].items@, st, f, is_bool, is_vec) {
            None => Ok(None),
            Some(s) => fold_clap_tokens(ts.drop_first(), s, f, is_bool, is_vec),
        }
    }
}

/// The candidate that wins: a named option, else a `long` one, else the plain one.
pub open spec fn pick(st: ArgsChoice) -> CliArgsView {
    if !(st.named is Nothing) {
        st.named
    } else if !(st.unnamed is Nothing) {
        st.unnamed
    } else {
        st.plain
    }
}

/// Whether every attribute of the field (none at all, too) is a doc comment.
pub open spec fn all_doc(attrs: Seq<Attr>) -> bool {
    forall|k: int| 0 <= k < attrs.len() ==> path_is(#[trigger] attrs[k], "doc"@)
}

/// What `InteractiveClapAttrsCliField::new` makes of a field: a field whose attributes are
/// all doc comments (or that has none) writes its value; otherwise only the
/// `#[clap(...)]` attributes decide, and a field with none of them writes nothing.
pub open spec fn cli_field_spec(field: Field) -> Result<CliFieldView, DeriveError> {
    let f = field.ident->0@;
    if all_doc(field.attrs@) {
        Ok(CliFieldView::RegularField(CliArgsView::Value(f)))
    } else {
        let init = ArgsChoice {
            plain: CliArgsView::Nothing,
            unnamed: CliArgsView::Nothing,
            named: CliArgsView::Nothing,
        };
        match fold_clap_tokens(
            tokens_of(field.attrs@, Some("clap"@)),
            init,
            f,
            field.ty.text@ == "bool"@,
            starts_with_vec_spec(field.ty),
        ) {
            Err(e) => Err(e),
            Ok(None) => Ok(CliFieldView::SubcommandField(f)),
            Ok(Some(st)) => Ok(CliFieldView::RegularField(pick(st))),
        }
    }
}

fn copy_args(a: &CliArgs) -> (res: CliArgs)
    ensures
        res@ == a@,
{
    match a {
        CliArgs::Nothing => CliArgs::Nothing,
        CliArgs::Value(f) => CliArgs::Value(copy_str(f.as_str())),
        CliArgs::Flattened(f) => CliArgs::Flattened(copy_str(f.as_str())),
        CliArgs::Flag(f, n) => CliArgs::Flag(copy_str(f.as_str()), copy_str(n.as_str())),
        CliArgs::LongOption(f, n) => CliArgs::LongOption(copy_str(f.as_str()), copy_str(n.as_str())),
        CliArgs::RepeatedOption(f, n) => CliArgs::RepeatedOption(copy_str(f.as_str()), copy_str(n.as_str())),
        CliArgs::NamedOption(f, n) => CliArgs::NamedOption(copy_str(f.as_str()), copy_str(n.as_str())),
    }
}

/// Whether every attribute is a doc comment.
fn all_doc_attrs(attrs: &Vec<Attr>) -> (res: bool)
    ensures
        res == all_doc(attrs@),
{
    let mut k: usize = 0;
    while k < attrs.len()
        invariant
            k <= attrs.len(),
            forall|q: int| 0 <= q < k ==> path_is(#[trigger] attrs@[q], "doc"@),
        decreases attrs.len() - k,
    {
        if !attr_path_is(&attrs[k], "doc") {
            return false;
        }
        k = k + 1;
    }
    true
}

impl InteractiveClapAttrsCliField {
    /// Decides how a field of a `Cli...` struct is written back as arguments.
    pub fn new(field: &Field) -> (res: Result<Self, DeriveError>)
        requires
            field.ident is Some,
        ensures
            cli_field_spec(*field) == match res {
                Ok(v) => Ok(v@),
                Err(e) => Err(e),
            },
    {
        let f: &String = match &field.ident {
            Some(s) => s,
            None => {
                return Err(DeriveError::OnlyGroupTokens);
            },
        };
        if all_doc_attrs(&field.attrs) {
            return Ok(InteractiveClapAttrsCliField::RegularField(CliArgs::Value(copy_str(f.as_str()))));
        }
        let is_bool = str_eq(field.ty.text.as_str(), "bool");
        let is_vec = type_starts_with_vec(&field.ty);
        let ghost fs = f@;
        let ghost ts = tokens_of(field.attrs@, Some("clap"@));
        let refs = crate::tokens::select_tokens(&field.attrs, Some("clap"));
        let mut plain = CliArgs::Nothing;
        let mut unnamed = CliArgs::Nothing;
        let mut named = CliArgs::Nothing;
        let ghost init = ArgsChoice {
            plain: CliArgsView::Nothing,
            unnamed: CliArgsView::Nothing,
            named: CliArgsView::Nothing,
        };
        let mut k: usize = 0;
        assert(ts.skip(0) =~= ts);
        while k < refs.len()
            invariant
                ts == tokens_of(field.attrs@, Some("clap"@)),
                crate::tokens::refs_match(field.attrs@, refs@, ts),
                k <= refs.len(),
                fs == f@,
                fs == field.ident->0@,
                !all_doc(field.attrs@),
                init == (ArgsChoice {
                    plain: CliArgsView::Nothing,
                    unnamed: CliArgsView::Nothing,
                    named: CliArgsView::Nothing,
                }),
                is_bool == (field.ty.text@ == "bool"@),
                is_vec == starts_with_vec_spec(field.ty),
                fold_clap_tokens(ts, init, fs, is_bool, is_vec) == fold_clap_tokens(
                    ts.skip(k as int),
                    ArgsChoice { plain: plain@, unnamed: unnamed@, named: named@ },
                    fs,
                    is_bool,
                    is_vec,
                ),
            decreases refs.len() - k,
        {
            let (ai, ti) = refs[k];
            assert(refs@[k as int] == (ai, ti));
            assert(field.attrs@[ai as int].tokens@[ti as int] == ts[k as int]);
            let t = &field.attrs[ai].tokens[ti];
            assert(ts.skip(k as int)[0] == ts[k as int]);
            assert(ts.skip(k as int).drop_first() =~= ts.skip(k + 1));
            if t.kind != TokenKind::Group {
                return Err(DeriveError::OnlyGroupTokens);
            }
            let ghost st0 = ArgsChoice { plain: plain@, unnamed: unnamed@, named: named@ };
            let mut j: usize = 0;
            assert(t.items@.skip(0) =~= t.items@);
            while j < t.items.len()
                invariant
                    j <= t.items@.len(),
                    fs == f@,
                    is_bool == (field.ty.text@ == "bool"@),
                    is_vec == starts_with_vec_spec(field.ty),
                is_vec == starts_with_vec_spec(field.ty),
                    fs == field.ident->0@,
                    !all_doc(field.attrs@),
                    ts == tokens_of(field.attrs@, Some("clap"@)),
                    init == (ArgsChoice {
                        plain: CliArgsView::Nothing,
                        unnamed: CliArgsView::Nothing,
                        named: CliArgsView::Nothing,
                    }),
                    t.kind == TokenKind::Group,
                    fold_clap_tokens(ts, init, fs, is_bool, is_vec) == match fold_items(
                        t.items@,
                        st0,
                        fs,
                        is_bool,
                        is_vec,
                    ) {
                        None => Ok(None),
                        Some(s) => fold_clap_tokens(ts.skip(k + 1), s, fs, is_bool, is_vec),
                    },
                    fold_items(t.items@, st0, fs, is_bool, is_vec) == fold_items(
                        t.items@.skip(j as int),
                        ArgsChoice { plain: plain@, unnamed: unnamed@, named: named@ },
                        fs,
                        is_bool,
                        is_vec,
                    ),
                decreases t.items@.len() - j,
            {
                let item = &t.items[j];
                assert(t.items@.skip(j as int)[0] == t.items@[j as int]);
                assert(t.items@.skip(j as int).drop_first() =~= t.items@.skip(j + 1));
                if item.kind == TokenKind::Ident {
                    if str_eq(item.text.as_str(), "subcommand") {
                        return Ok(InteractiveClapAttrsCliField::SubcommandField(copy_str(f.as_str())));
                    }
                    if str_eq(item.text.as_str(), "flatten") {
                        plain = CliArgs::Flattened(copy_str(f.as_str()));
                    }
                    if str_eq(item.text.as_str(), "value_enum") {
                        plain = CliArgs::Value(copy_str(f.as_str()));
                    } else if str_eq(item.text.as_str(), "long") {
                        let name = to_kebab_case(copy_str(f.as_str()));
                        if is_bool {
                            unnamed = CliArgs::Flag(copy_str(f.as_str()), name);
                        } else if is_vec {
                            unnamed = CliArgs::RepeatedOption(copy_str(f.as_str()), name);
                        } else {
                            unnamed = CliArgs::LongOption(copy_str(f.as_str()), name);
                        }
                    }
                } else if item.kind == TokenKind::Literal {
                    named = CliArgs::NamedOption(copy_str(f.as_str()), copy_str(item.text.as_str()));
                }
                j = j + 1;
            }
            assert(t.items@.skip(j as int).len() == 0);
            k = k + 1;
        }
        assert(ts.skip(k as int).len() == 0);
        let chosen = match &named {
            CliArgs::Nothing => match &unnamed {
                CliArgs::Nothing => copy_args(&plain),
                _ => copy_args(&unnamed),
            },
            _ => copy_args(&named),
        };
        Ok(InteractiveClapAttrsCliField::RegularField(chosen))
    }
}

} // verus!

verus! {

/// Whether every field has a name (a tuple struct's fields have none).
pub open spec fn all_named(fields: Seq<Field>) -> bool {
    forall|i: int| 0 <= i < fields.len() ==> (#[trigger] fields[i]).ident is Some
}

/// The views of a run of arguments.
pub open spec fn args_views(v: Seq<CliArgs>) -> Seq<CliArgsView> {
    v.map_values(|a: CliArgs| a@)
}

/// The subcommand field (the last one, when several are marked) and the arguments of the
/// other fields in field order; a refusal of the first field that refuses.
pub open spec fn struct_args_spec(fields: Seq<Field>) -> Result<
    (Option<Seq<char>>, Seq<CliArgsView>),
    DeriveError,
>
    decreases fields.len(),
{
    if fields.len() == 0 {
        Ok((None, seq![]))
    } else {
        match cli_field_spec(fields[0]) {
            Err(e) => Err(e),
            Ok(v) => match struct_args_spec(fields.drop_first()) {
                Err(e) => Err(e),
                Ok((sub, pushes)) => match v {
                    CliFieldView::RegularField(a) => Ok((sub, seq![a] + pushes)),
                    CliFieldView::SubcommandField(f) => Ok(
                        (
                            if sub is Some {
                                sub
                            } else {
                                Some(f)
                            },
                            pushes,
                        ),
                    ),
                },
            },
        }
    }
}

/// A variant of a `Cli...` enum as `to_cli_args` writes it: its kebab-case name first, then,
/// for a tuple variant, the arguments of its content.
#[derive(Debug)]
pub struct ArgVariant {
    pub ident: String,
    pub name: String,
    pub has_subcommand: bool,
}

/// `ArgVariant` as plain sequences.
pub struct ArgVariantView {
    pub ident: Seq<char>,
    pub name: Seq<char>,
    pub has_subcommand: bool,
}

impl View for ArgVariant {
    type V = ArgVariantView;

    open spec fn view(&self) -> ArgVariantView {
        ArgVariantView { ident: self.ident@, name: self.name@, has_subcommand: self.has_subcommand }
    }
}

/// The variants as `to_cli_args` writes them; a variant with named fields is refused.
pub open spec fn enum_args_spec(vs: Seq<Variant>) -> Result<Seq<ArgVariantView>, DeriveError>
    decreases vs.len(),
{
    if vs.len() == 0 {
        Ok(seq![])
    } else {
        let v = vs[0];
        match v.fields {
            VariantFields::Named => Err(DeriveError::OnlyUnnamedOrUnitVariants),
            _ => match enum_args_spec(vs.drop_first()) {
                Err(e) => Err(e),
                Ok(rest) => Ok(
                    seq![
                        ArgVariantView {
                            ident: v.ident@,
                            name: kebab(v.ident@),
                            has_subcommand: v.fields is Unnamed,
                        },
                    ] + rest,
                ),
            },
        }
    }
}

/// What the `ToCliArgs` derive generates for an item.
#[derive(Debug)]
pub enum ToCliArgsPlan {
    /// For a struct: the list starts with the subcommand field's arguments (or empty), then
    /// each entry of `pushes` is written in turn: at the front of the list, except the
    /// arguments of a flattened field, which are appended at its back.
    Struct { cli_name: String, subcommand: Option<String>, pushes: Vec<CliArgs> },
    /// For an enum: one arm per variant.
    Enum { cli_name: String, variants: Vec<ArgVariant> },
}

/// `ToCliArgsPlan` as plain sequences.
pub enum ToCliArgsPlanView {
    Struct { cli_name: Seq<char>, subcommand: Option<Seq<char>>, pushes: Seq<CliArgsView> },
    Enum { cli_name: Seq<char>, variants: Seq<ArgVariantView> },
}

impl View for ToCliArgsPlan {
    type V = ToCliArgsPlanView;

    open spec fn view(&self) -> ToCliArgsPlanView {
        match self {
            ToCliArgsPlan::Struct { cli_name, subcommand, pushes } => ToCliArgsPlanView::Struct {
                cli_name: cli_name@,
                subcommand: match subcommand {
                    Some(s) => Some(s@),
                    None => None,
                },
                pushes: args_views(pushes@),
            },
            ToCliArgsPlan::Enum { cli_name, variants } => ToCliArgsPlanView::Enum {
                cli_name: cli_name@,
                variants: variants@.map_values(|v: ArgVariant| v@),
            },
        }
    }
}

/// What the `ToCliArgs` derive generates: for a struct, the field arguments are pushed in
/// reverse field order, so that the list reads in field order.
pub open spec fn to_cli_args_spec(ast: DeriveInput) -> Result<ToCliArgsPlanView, DeriveError> {
    match ast.data {
        Data::Struct(fields) => match struct_args_spec(fields@) {
            Err(e) => Err(e),
            Ok((sub, l)) => Ok(
                ToCliArgsPlanView::Struct { cli_name: ast.ident@, subcommand: sub, pushes: l.reverse() },
            ),
        },
        Data::Enum(vs) => match enum_args_spec(vs@) {
            Err(e) => Err(e),
            Ok(l) => Ok(ToCliArgsPlanView::Enum { cli_name: ast.ident@, variants: l }),
        },
        Data::Union => Err(DeriveError::OnlyStructsAndEnums),
    }
}

/// Whether the derive input can be handled without a panic: a struct's fields all have
/// names.
pub open spec fn to_cli_args_input_ok(ast: DeriveInput) -> bool {
    ast.data matches Data::Struct(fields) ==> all_named(fields@)
}

/// Combines what the first fields gave with the outcome of the rest.
pub open spec fn join_args(
    sub: Option<Seq<char>>,
    l: Seq<CliArgsView>,
    r: Result<(Option<Seq<char>>, Seq<CliArgsView>), DeriveError>,
) -> Result<(Option<Seq<char>>, Seq<CliArgsView>), DeriveError> {
    match r {
        Err(e) => Err(e),
        Ok((s2, l2)) => Ok(
            (
                if s2 is Some {
                    s2
                } else {
                    sub
                },
                l + l2,
            ),
        ),
    }
}

/// An optional string as an optional sequence.
pub open spec fn opt_view(o: Option<String>) -> Option<Seq<char>> {
    match o {
        Some(x) => Some(x@),
        None => None,
    }
}

fn struct_args(fields: &Vec<Field>) -> (res: Result<(Option<String>, Vec<CliArgs>), DeriveError>)
    requires
        all_named(fields@),
    ensures
        struct_args_spec(fields@) == match res {
            Ok((s, l)) => Ok((opt_view(s), args_views(l@))),
            Err(e) => Err(e),
        },
{
    let mut sub: Option<String> = None;
    let mut list: Vec<CliArgs> = Vec::new();
    let mut i: usize = 0;
    assert(fields@.skip(0) =~= fields@);
    assert(args_views(list@) =~= Seq::<CliArgsView>::empty());
    while i < fields.len()
        invariant
            i <= fields.len(),
            all_named(fields@),
            struct_args_spec(fields@) == join_args(
                opt_view(sub),
                args_views(list@),
                struct_args_spec(fields@.skip(i as int)),
            ),
        decreases fields.len() - i,
    {
        assert(fields@.skip(i as int)[0] == fields@[i as int]);
        assert(fields@.skip(i as int).drop_first() =~= fields@.skip(i + 1));
        let ghost lv = args_views(list@);
        match InteractiveClapAttrsCliField::new(&fields[i]) {
            Err(e) => {
                return Err(e);
            },
            Ok(InteractiveClapAttrsCliField::RegularField(a)) => {
                list.push(a);
                assert(args_views(list@) =~= lv.push(list@.last()@));
                proof {
                    let r = struct_args_spec(fields@.skip(i + 1));
                    if let Ok((s2, l2)) = r {
                        assert(lv + (seq![list@.last()@] + l2) =~= args_views(list@) + l2);
                    }
                }
            },
            Ok(InteractiveClapAttrsCliField::SubcommandField(f)) => {
                sub = Some(f);
            },
        }
        i = i + 1;
    }
    assert(fields@.skip(i as int).len() == 0);
    assert(args_views(list@) + Seq::<CliArgsView>::empty() =~= args_views(list@));
    Ok((sub, list))
}

} // verus!

verus! {

fn enum_args(vs: &Vec<Variant>) -> (res: Result<Vec<ArgVariant>, DeriveError>)
    ensures
        enum_args_spec(vs@) == match res {
            Ok(l) => Ok(l@.map_values(|v: ArgVariant| v@)),
            Err(e) => Err(e),
        },
{
    let mut out: Vec<ArgVariant> = Vec::new();
    let mut i: usize = 0;
    assert(vs@.skip(0) =~= vs@);
    while i < vs.len()
        invariant
            i <= vs.len(),
            enum_args_spec(vs@) == match enum_args_spec(vs@.skip(i as int)) {
                Err(e) => Err(e),
                Ok(rest) => Ok(out@.map_values(|v: ArgVariant| v@) + rest),
            },
        decreases vs.len() - i,
    {
        assert(vs@.skip(i as int)[0] == vs@[i as int]);
        assert(vs@.skip(i as int).drop_first() =~= vs@.skip(i + 1));
        let v = &vs[i];
        let ghost before = out@.map_values(|v: ArgVariant| v@);
        let has_subcommand = match &v.fields {
            VariantFields::Named => {
                return Err(DeriveError::OnlyUnnamedOrUnitVariants);
            },
            VariantFields::Unnamed(_) => true,
            VariantFields::Unit => false,
        };
        let name = to_kebab_case(copy_str(v.ident.as_str()));
        out.push(ArgVariant { ident: copy_str(v.ident.as_str()), name, has_subcommand });
        proof {
            let x = out@.last()@;
            assert(out@.map_values(|v: ArgVariant| v@) =~= before.push(x));
            if let Ok(rest) = enum_args_spec(vs@.skip(i + 1)) {
                assert(before + (seq![x] + rest) =~= before.push(x) + rest);
            }
        }
        i = i + 1;
    }
    assert(vs@.skip(i as int).len() == 0);
    assert(out@.map_values(|v: ArgVariant| v@) + Seq::<ArgVariantView>::empty()
        =~= out@.map_values(|v: ArgVariant| v@));
    Ok(out)
}

fn reversed_args(l: Vec<CliArgs>) -> (res: Vec<CliArgs>)
    ensures
        args_views(res@) == args_views(l@).reverse(),
{
    let mut l = l;
    let ghost orig = args_views(l@);
    let mut out: Vec<CliArgs> = Vec::new();
    while l.len() > 0
        invariant
            orig.len() == l@.len() + out@.len(),
            args_views(l@) == orig.take(l@.len() as int),
            args_views(out@) == orig.reverse().take(out@.len() as int),
        decreases l.len(),
    {
        let ghost n = l@.len();
        let ghost old_l = l@;
        let ghost old_out = out@;
        let a = l.pop().unwrap();
        assert(old_l[n - 1] == a);
        assert(args_views(old_l)[n - 1] == orig[n - 1]);
        out.push(a);
        assert(args_views(l@) =~= orig.take(l@.len() as int)) by {
            assert(l@ =~= old_l.take(n - 1));
        }
        assert forall|k: int| 0 <= k < out@.len() implies args_views(out@)[k]
            == orig.reverse()[k] by {
            if k < old_out.len() {
                assert(args_views(old_out)[k] == orig.reverse().take(old_out.len() as int)[k]);
            }
        }
        assert(args_views(out@) =~= orig.reverse().take(out@.len() as int));
    }
    assert(args_views(out@) =~= orig.reverse());
    out
}

/// The `ToCliArgs` derive: what `to_cli_args` is made of for a struct or an enum.
pub fn impl_to_cli_args(ast: &DeriveInput) -> (res: Result<ToCliArgsPlan, DeriveError>)
    requires
        to_cli_args_input_ok(*ast),
    ensures
        to_cli_args_spec(*ast) == match res {
            Ok(p) => Ok(p@),
            Err(e) => Err(e),
        },
{
    match &ast.data {
        Data::Struct(fields) => {
            let (sub, list) = struct_args(fields)?;
            let pushes = reversed_args(list);
            Ok(ToCliArgsPlan::Struct { cli_name: copy_str(ast.ident.as_str()), subcommand: sub, pushes })
        },
        Data::Enum(vs) => {
            let variants = enum_args(vs)?;
            Ok(ToCliArgsPlan::Enum { cli_name: copy_str(ast.ident.as_str()), variants })
        },
        Data::Union => Err(DeriveError::OnlyStructsAndEnums),
    }
}

/// The words `<flag> <value>` for each value, in the order of the values.
pub open spec fn flag_pairs(flag: Seq<char>, vals: Seq<Seq<char>>) -> Seq<Seq<char>>
    decreases vals.len(),
{
    if vals.len() == 0 {
        seq![]
    } else {
        seq![flag, vals[0]] + flag_pairs(flag, vals.drop_first())
    }
}

/// What `to_cli_args` writes for a repeated option (`CliArgs::RepeatedOption`) named `name`
/// whose values, printed, are `values`: `--<name> <value>` for each value, in their order,
/// in front of the words already in `args`; nothing for no value.
pub fn push_front_repeated(args: &mut VecDeque<String>, name: &str, values: &Vec<String>)
    ensures
        strings_view(final(args)@) == flag_pairs("--"@ + name@, strings_view(values@)) + strings_view(
            old(args)@,
        ),
{
    let ghost old_v = strings_view(args@);
    let ghost flag = "--"@ + name@;
    let ghost sv = strings_view(values@);
    let n = values.len();
    let mut i: usize = n;
    assert(sv.subrange(n as int, n as int) =~= Seq::<Seq<char>>::empty());
    assert(flag_pairs(flag, Seq::<Seq<char>>::empty()) + old_v =~= old_v);
    while i > 0
        invariant
            i <= n,
            n == values.len(),
            sv == strings_view(values@),
            flag == "--"@ + name@,
            strings_view(args@) == flag_pairs(flag, sv.subrange(i as int, n as int)) + old_v,
        decreases i,
    {
        i = i - 1;
        let ghost before = strings_view(args@);
        let v = copy_str(values[i].as_str());
        args.push_front(v);
        let f = concat2("--", name);
        args.push_front(f);
        assert(strings_view(args@) =~= seq![flag, sv[i as int]] + before);
        let ghost sub = sv.subrange(i as int, n as int);
        assert(sub[0] == sv[i as int]);
        assert(sub.drop_first() =~= sv.subrange(i + 1, n as int));
        assert(seq![flag, sv[i as int]] + (flag_pairs(flag, sub.drop_first()) + old_v) =~= (seq![
            flag,
            sv[i as int],
        ] + flag_pairs(flag, sub.drop_first())) + old_v);
    }
    assert(sv.subrange(0, n as int) =~= sv);
}

} // verus!
