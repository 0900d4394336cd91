//! The `Cli...` struct that `InteractiveClap` derives for a struct: the type and clap
//! attributes of each of its fields, and the conversion from the struct into it.

use vstd::prelude::*;
use crate::model::{Attr, AttrToken, Field, Ty, TokenKind, first_segment, last_segment_name,
    path_is, starts_with_vec_spec, attr_path_is, first_segment_ident, last_segment_string,
    type_starts_with_vec};
use crate::error::DeriveError;
use crate::text::{copy_str, concat2, seq_contains, str_contains, str_eq};
use crate::tokens::{Probe, any_group, any_group_passes, tokens_of};
use crate::context::{strings_view, copy_strings};

verus! {

/// The type of a field of the `Cli...` struct, as `cli_field_type` decides it.
#[derive(Debug)]
pub enum CliFieldType {
    /// `bool`, kept as it is: a flag.
    Bool,
    /// `Option<<T as interactive_clap::ToCli>::CliVariant>`, with `T` printed.
    OptionOf(String),
}

/// `CliFieldType` as plain sequences.
pub enum CliFieldTypeView {
    Bool,
    OptionOf(Seq<char>),
}

impl View for CliFieldType {
    type V = CliFieldTypeView;

    open spec fn view(&self) -> CliFieldTypeView {
        match self {
            CliFieldType::Bool => CliFieldTypeView::Bool,
            CliFieldType::OptionOf(t) => CliFieldTypeView::OptionOf(t@),
        }
    }
}

/// The `Cli...` type of a field of type `ty`: a `bool` stays a flag; `Option<T>` becomes an
/// option of `T`'s CLI variant (of the whole type when its arguments are not in angle
/// brackets); any other path type becomes an option of its CLI variant. A type that is not a
/// path, or a path without segments, is refused.
pub open spec fn cli_field_type_spec(ty: Ty) -> Result<CliFieldTypeView, DeriveError> {
    match ty.segments {
        None => Err(DeriveError::OnlyTypePath),
        Some(segs) => if segs@.len() == 0 {
            Err(DeriveError::OnlyPathSegment)
        } else {
            let s = segs@[0];
            if s.ident@ == "Option"@ {
                match s.angle_args {
                    Some(a) => Ok(CliFieldTypeView::OptionOf(a@)),
                    None => Ok(CliFieldTypeView::OptionOf(ty.text@)),
                }
            } else if s.ident@ == "bool"@ {
                Ok(CliFieldTypeView::Bool)
            } else {
                Ok(CliFieldTypeView::OptionOf(ty.text@))
            }
        },
    }
}

/// The type of the field of the `Cli...` struct that stands for a field of type `ty`.
pub fn cli_field_type(ty: &Ty) -> (res: Result<CliFieldType, DeriveError>)
    ensures
        cli_field_type_spec(*ty) == match res {
            Ok(t) => Ok(t@),
            Err(e) => Err(e),
        },
{
    match &ty.segments {
        None => Err(DeriveError::OnlyTypePath),
        Some(segs) => {
            if segs.len() == 0 {
                return Err(DeriveError::OnlyPathSegment);
            }
            let s = &segs[0];
            if str_eq(s.ident.as_str(), "Option") {
                match &s.angle_args {
                    Some(a) => Ok(CliFieldType::OptionOf(copy_str(a.as_str()))),
                    None => Ok(CliFieldType::OptionOf(copy_str(ty.text.as_str()))),
                }
            } else if str_eq(s.ident.as_str(), "bool") {
                Ok(CliFieldType::Bool)
            } else {
                Ok(CliFieldType::OptionOf(copy_str(ty.text.as_str())))
            }
        },
    }
}

/// How a field of the `Cli...` struct is declared.
#[derive(Debug)]
pub enum CliFieldDecl {
    /// `pub <field>: <cli_field_type>`.
    Typed(CliFieldType),
    /// `pub <field>: Option<<enum>>`, with the helper enum of a `named_arg` field.
    NamedArg(String),
    /// `pub <field>: <type>`, the input type unchanged.
    Verbatim(String),
}

/// `CliFieldDecl` as plain sequences.
pub enum CliFieldDeclView {
    Typed(CliFieldTypeView),
    NamedArg(Seq<char>),
    Verbatim(Seq<char>),
}

impl View for CliFieldDecl {
    type V = CliFieldDeclView;

    open spec fn view(&self) -> CliFieldDeclView {
        match self {
            CliFieldDecl::Typed(t) => CliFieldDeclView::Typed(t@),
            CliFieldDecl::NamedArg(e) => CliFieldDeclView::NamedArg(e@),
            CliFieldDecl::Verbatim(t) => CliFieldDeclView::Verbatim(t@),
        }
    }
}

/// An entry of the `#[clap(...)]` attribute of a field of the `Cli...` struct.
#[derive(Debug)]
pub enum ClapAttr {
    /// The stream of an `interactive_clap` group, passed on as it is.
    Stream(String),
    /// A single word: `subcommand`, `flatten` or `long`.
    Word(String),
}

/// `ClapAttr` as plain sequences.
pub enum ClapAttrView {
    Stream(Seq<char>),
    Word(Seq<char>),
}

impl View for ClapAttr {
    type V = ClapAttrView;

    open spec fn view(&self) -> ClapAttrView {
        match self {
            ClapAttr::Stream(s) => ClapAttrView::Stream(s@),
            ClapAttr::Word(w) => ClapAttrView::Word(w@),
        }
    }
}

/// A field of the `Cli...` struct: `cfg` attributes, doc comments, `#[clap(...)]` (left out
/// when it has no entry), then the declaration.
#[derive(Debug)]
pub struct CliFieldPlan {
    pub ident: String,
    pub decl: CliFieldDecl,
    pub cfg_attrs: Vec<String>,
    pub doc_attrs: Vec<String>,
    pub clap_attrs: Vec<ClapAttr>,
}

/// `CliFieldPlan` as plain sequences.
pub struct CliFieldPlanView {
    pub ident: Seq<char>,
    pub decl: CliFieldDeclView,
    pub cfg_attrs: Seq<Seq<char>>,
    pub doc_attrs: Seq<Seq<char>>,
    pub clap_attrs: Seq<ClapAttrView>,
}

/// The views of a run of clap entries.
pub open spec fn clap_views(v: Seq<ClapAttr>) -> Seq<ClapAttrView> {
    v.map_values(|c: ClapAttr| c@)
}

impl View for CliFieldPlan {
    type V = CliFieldPlanView;

    open spec fn view(&self) -> CliFieldPlanView {
        CliFieldPlanView {
            ident: self.ident@,
            decl: self.decl@,
            cfg_attrs: strings_view(self.cfg_attrs@),
            doc_attrs: strings_view(self.doc_attrs@),
            clap_attrs: clap_views(self.clap_attrs@),
        }
    }
}

/// The name of the helper enum of a `named_arg` field: `ClapNamedArg<Type>For<Name>`, with
/// the last segment of the field's type and the name of the derived struct.
pub open spec fn named_arg_enum_name(ty: Ty, name: Seq<char>) -> Seq<char> {
    "ClapNamedArg"@ + last_segment_name(ty) + "For"@ + name
}

/// What has been read of a field's attributes: its declaration (`None` once it is
/// skipped), the `cfg` attributes, doc comments and clap entries, and the skip marks.
pub struct CfState {
    pub decl: Option<CliFieldDeclView>,
    pub cfg: Seq<Seq<char>>,
    pub doc: Seq<Seq<char>>,
    pub clap: Seq<ClapAttrView>,
    pub skip: Seq<Seq<char>>,
}

/// Whether a group's stream is passed on to `#[clap(...)]`. The current derive passes on
/// `subcommand`, `value_enum`, `long`, `skip`, `flatten` and `verbatim_doc_comment`
/// (`long_vec_multiple_opt` is handled apart); the classic one passes on `subcommand`,
/// `value_enum`, `long` and `skip`.
pub open spec fn passed_on(gs: Seq<char>, modern: bool) -> bool {
    seq_contains(gs, "subcommand"@) || seq_contains(gs, "value_enum"@) || seq_contains(
        gs,
        "long"@,
    ) || gs == "skip"@ || (modern && (gs == "flatten"@ || gs == "verbatim_doc_comment"@))
}

/// Whether a group marks a `named_arg` field.
pub open spec fn marks_named_arg(gs: Seq<char>, modern: bool) -> bool {
    if modern {
        gs == "named_arg"@
    } else {
        seq_contains(gs, "named_arg"@)
    }
}

/// What one group of an `interactive_clap` or `cfg` attribute `a` does to the field.
pub open spec fn cf_group_step(
    st: CfState,
    gs: Seq<char>,
    a: Attr,
    f: Field,
    name: Seq<char>,
    modern: bool,
) -> Result<CfState, DeriveError> {
    let st1 = if passed_on(gs, modern) {
        if modern && gs == "long_vec_multiple_opt"@ {
            st
        } else {
            CfState { clap: st.clap.push(ClapAttrView::Stream(gs)), ..st }
        }
    } else if marks_named_arg(gs, modern) {
        CfState {
            clap: st.clap.push(ClapAttrView::Word("subcommand"@)),
            decl: Some(CliFieldDeclView::NamedArg(named_arg_enum_name(f.ty, name))),
            ..st
        }
    } else {
        st
    };
    let st2 = if seq_contains(gs, "feature"@) {
        CfState { cfg: st1.cfg.push(a.text@), ..st1 }
    } else {
        st1
    };
    let st3 = if modern && seq_contains(gs, "subargs"@) {
        CfState { clap: st2.clap.push(ClapAttrView::Word("flatten"@)), ..st2 }
    } else {
        st2
    };
    let st4 = if gs == "skip"@ {
        CfState { skip: st3.skip.push(f.ident->0@), decl: None, ..st3 }
    } else {
        st3
    };
    if modern && gs == "long_vec_multiple_opt"@ {
        if !starts_with_vec_spec(f.ty) {
            Err(DeriveError::LongVecMultipleOptNeedsVec)
        } else {
            Ok(
                CfState {
                    clap: st4.clap.push(ClapAttrView::Word("long"@)),
                    decl: Some(CliFieldDeclView::Verbatim(f.ty.text@)),
                    ..st4
                },
            )
        }
    } else {
        Ok(st4)
    }
}

/// What the tokens of the attribute `a` do to the field, in order; a token that is not a
/// group is refused.
pub open spec fn cf_tokens(
    ts: Seq<AttrToken>,
    st: CfState,
    a: Attr,
    f: Field,
    name: Seq<char>,
    modern: bool,
) -> Result<CfState, DeriveError>
    decreases ts.len(),
{
    if ts.len() == 0 {
        Ok(st)
    } else if ts[0].kind != TokenKind::Group {
        Err(DeriveError::OnlyGroupTokens)
    } else {
        match cf_group_step(st, ts[0].stream@, a, f, name, modern) {
            Err(e) => Err(e),
            Ok(s) => cf_tokens(ts.drop_first(), s, a, f, name, modern),
        }
    }
}

/// A doc comment is kept by the current derive.
pub open spec fn cf_doc_step(st: CfState, a: Attr, modern: bool) -> CfState {
    if modern && path_is(a, "doc"@) {
        CfState { doc: st.doc.push(a.text@), ..st }
    } else {
        st
    }
}

/// Whether the attribute is read for the `Cli...` field: `interactive_clap` or `cfg`.
pub open spec fn cf_reads(a: Attr) -> bool {
    path_is(a, "interactive_clap"@) || path_is(a, "cfg"@)
}

/// What the attributes do to the field, in order.
pub open spec fn cf_attrs(attrs: Seq<Attr>, st: CfState, f: Field, name: Seq<char>, modern: bool) -> Result<
    CfState,
    DeriveError,
>
    decreases attrs.len(),
{
    if attrs.len() == 0 {
        Ok(st)
    } else {
        let a = attrs[0];
        let r = if cf_reads(a) {
            cf_tokens(a.tokens@, st, a, f, name, modern)
        } else {
            Ok(st)
        };
        match r {
            Err(e) => Err(e),
            Ok(s) => cf_attrs(attrs.drop_first(), cf_doc_step(s, a, modern), f, name, modern),
        }
    }
}

/// The field of the `Cli...` struct that stands for `f` (`None` when it is skipped), and
/// the skip marks it leaves. The type is decided first, then the attributes are read.
pub open spec fn cli_field_spec(f: Field, name: Seq<char>, modern: bool) -> Result<
    (Option<CliFieldPlanView>, Seq<Seq<char>>),
    DeriveError,
> {
    match cli_field_type_spec(f.ty) {
        Err(e) => Err(e),
        Ok(t) => {
            let init = CfState {
                decl: Some(CliFieldDeclView::Typed(t)),
                cfg: seq![],
                doc: seq![],
                clap: seq![],
                skip: seq![],
            };
            match cf_attrs(f.attrs@, init, f, name, modern) {
                Err(e) => Err(e),
                Ok(st) => Ok(
                    (
                        match st.decl {
                            None => None,
                            Some(d) => Some(
                                CliFieldPlanView {
                                    ident: f.ident->0@,
                                    decl: d,
                                    cfg_attrs: st.cfg,
                                    doc_attrs: st.doc,
                                    clap_attrs: st.clap,
                                },
                            ),
                        },
                        st.skip,
                    ),
                ),
            }
        },
    }
}

/// The fields of the `Cli...` struct and the names of the skipped fields, field after field;
/// a refusal of the first field that refuses.
pub open spec fn cli_fields_spec(fields: Seq<Field>, name: Seq<char>, modern: bool) -> Result<
    (Seq<CliFieldPlanView>, Seq<Seq<char>>),
    DeriveError,
>
    decreases fields.len(),
{
    if fields.len() == 0 {
        Ok((seq![], seq![]))
    } else {
        match cli_field_spec(fields[0], name, modern) {
            Err(e) => Err(e),
            Ok((p, sk)) => match cli_fields_spec(fields.drop_first(), name, modern) {
                Err(e) => Err(e),
                Ok((ps, sks)) => Ok(
                    (
                        match p {
                            Some(x) => seq![x] + ps,
                            None => ps,
                        },
                        sk + sks,
                    ),
                ),
            },
        }
    }
}

} // verus!

verus! {

/// What has been read of a field's attributes, as values.
pub struct CfAcc {
    pub decl: Option<CliFieldDecl>,
    pub cfg: Vec<String>,
    pub doc: Vec<String>,
    pub clap: Vec<ClapAttr>,
    pub skip: Vec<String>,
}

/// An optional declaration as a view.
pub open spec fn opt_decl_view(d: Option<CliFieldDecl>) -> Option<CliFieldDeclView> {
    match d {
        Some(x) => Some(x@),
        None => None,
    }
}

impl View for CfAcc {
    type V = CfState;

    open spec fn view(&self) -> CfState {
        CfState {
            decl: opt_decl_view(self.decl),
            cfg: strings_view(self.cfg@),
            doc: strings_view(self.doc@),
            clap: clap_views(self.clap@),
            skip: strings_view(self.skip@),
        }
    }
}

proof fn lemma_strings_push(s: Seq<String>, x: String)
    ensures
        strings_view(s.push(x)) == strings_view(s).push(x@),
{
    assert(strings_view(s.push(x)) =~= strings_view(s).push(x@));
}

proof fn lemma_clap_push(s: Seq<ClapAttr>, x: ClapAttr)
    ensures
        clap_views(s.push(x)) == clap_views(s).push(x@),
{
    assert(clap_views(s.push(x)) =~= clap_views(s).push(x@));
}

/// `ClapNamedArg<Type>For<Name>`.
pub fn named_arg_enum(ty: &Ty, name: &str) -> (res: String)
    ensures
        res@ == named_arg_enum_name(*ty, name@),
{
    let last = last_segment_string(ty);
    let mut s = copy_str("ClapNamedArg");
    s.append(last.as_str());
    s.append("For");
    s.append(name);
    s
}

fn push_clap(acc: CfAcc, c: ClapAttr) -> (res: CfAcc)
    ensures
        res@ == (CfState { clap: acc@.clap.push(c@), ..acc@ }),
{
    let mut acc = acc;
    proof {
        lemma_clap_push(acc.clap@, c);
    }
    acc.clap.push(c);
    acc
}

fn cf_group(acc_in: CfAcc, gs: &str, a: &Attr, f: &Field, name: &str, modern: bool) -> (res: Result<
    CfAcc,
    DeriveError,
>)
    requires
        f.ident is Some,
    ensures
        cf_group_step(acc_in@, gs@, *a, *f, name@, modern) == match res {
            Ok(x) => Ok(x@),
            Err(e) => Err(e),
        },
{
    let mut acc = acc_in;
    let ghost st = acc@;
    let is_lvmo = str_eq(gs, "long_vec_multiple_opt");
    let pass = str_contains(gs, "subcommand") || str_contains(gs, "value_enum") || str_contains(
        gs,
        "long",
    ) || str_eq(gs, "skip") || (modern && (str_eq(gs, "flatten") || str_eq(
        gs,
        "verbatim_doc_comment",
    )));
    assert(pass == passed_on(gs@, modern));
    if pass {
        if !(modern && is_lvmo) {
            acc = push_clap(acc, ClapAttr::Stream(copy_str(gs)));
        }
    } else {
        let named = if modern {
            str_eq(gs, "named_arg")
        } else {
            str_contains(gs, "named_arg")
        };
        assert(named == marks_named_arg(gs@, modern));
        if named {
            acc = push_clap(acc, ClapAttr::Word(copy_str("subcommand")));
            acc.decl = Some(CliFieldDecl::NamedArg(named_arg_enum(&f.ty, name)));
        }
    }
    let ghost st1 = acc@;
    assert(st1 == if passed_on(gs@, modern) {
        if modern && gs@ == "long_vec_multiple_opt"@ {
            st
        } else {
            CfState { clap: st.clap.push(ClapAttrView::Stream(gs@)), ..st }
        }
    } else if marks_named_arg(gs@, modern) {
        CfState {
            clap: st.clap.push(ClapAttrView::Word("subcommand"@)),
            decl: Some(CliFieldDeclView::NamedArg(named_arg_enum_name(f.ty, name@))),
            ..st
        }
    } else {
        st
    });
    if str_contains(gs, "feature") {
        let c = copy_str(a.text.as_str());
        proof {
            lemma_strings_push(acc.cfg@, c);
        }
        acc.cfg.push(c);
    }
    let ghost st2 = acc@;
    assert(st2 == if seq_contains(gs@, "feature"@) {
        CfState { cfg: st1.cfg.push(a.text@), ..st1 }
    } else {
        st1
    });
    if modern && str_contains(gs, "subargs") {
        acc = push_clap(acc, ClapAttr::Word(copy_str("flatten")));
    }
    let ghost st3 = acc@;
    assert(st3 == if modern && seq_contains(gs@, "subargs"@) {
        CfState { clap: st2.clap.push(ClapAttrView::Word("flatten"@)), ..st2 }
    } else {
        st2
    });
    if str_eq(gs, "skip") {
        match &f.ident {
            Some(id) => {
                let c = copy_str(id.as_str());
                proof {
                    lemma_strings_push(acc.skip@, c);
                }
                acc.skip.push(c);
            },
            None => {},
        }
        acc.decl = None;
    }
    let ghost st4 = acc@;
    assert(st4 == if gs@ == "skip"@ {
        CfState { skip: st3.skip.push(f.ident->0@), decl: None, ..st3 }
    } else {
        st3
    });
    if modern && is_lvmo {
        if !type_starts_with_vec(&f.ty) {
            return Err(DeriveError::LongVecMultipleOptNeedsVec);
        }
        acc = push_clap(acc, ClapAttr::Word(copy_str("long")));
        acc.decl = Some(CliFieldDecl::Verbatim(copy_str(f.ty.text.as_str())));
        assert(acc@ == CfState {
            clap: st4.clap.push(ClapAttrView::Word("long"@)),
            decl: Some(CliFieldDeclView::Verbatim(f.ty.text@)),
            ..st4
        });
    }
    Ok(acc)
}

fn cf_attr(acc_in: CfAcc, a: &Attr, f: &Field, name: &str, modern: bool) -> (res: Result<CfAcc, DeriveError>)
    requires
        f.ident is Some,
    ensures
        match (if cf_reads(*a) {
            cf_tokens(a.tokens@, acc_in@, *a, *f, name@, modern)
        } else {
            Ok(acc_in@)
        }) {
            Err(e) => res == Err::<CfAcc, DeriveError>(e),
            Ok(s) => res matches Ok(x) && x@ == cf_doc_step(s, *a, modern),
        },
{
    let mut acc = acc_in;
    let reads = attr_path_is(a, "interactive_clap") || attr_path_is(a, "cfg");
    let ghost acc0 = acc@;
    if reads {
        let mut j: usize = 0;
        assert(a.tokens@.skip(0) =~= a.tokens@);
        while j < a.tokens.len()
            invariant
                f.ident is Some,
                reads == cf_reads(*a),
                reads,
                acc0 == acc_in@,
                j <= a.tokens@.len(),
                cf_tokens(a.tokens@, acc0, *a, *f, name@, modern) == cf_tokens(
                    a.tokens@.skip(j as int),
                    acc@,
                    *a,
                    *f,
                    name@,
                    modern,
                ),
            decreases a.tokens@.len() - j,
        {
            let t = &a.tokens[j];
            assert(a.tokens@.skip(j as int)[0] == a.tokens@[j as int]);
            assert(a.tokens@.skip(j as int).drop_first() =~= a.tokens@.skip(j + 1));
            if t.kind != TokenKind::Group {
                return Err(DeriveError::OnlyGroupTokens);
            }
            acc = cf_group(acc, t.stream.as_str(), a, f, name, modern)?;
            j = j + 1;
        }
        assert(a.tokens@.skip(j as int).len() == 0);
    }
    if modern && attr_path_is(a, "doc") {
        let c = copy_str(a.text.as_str());
        proof {
            lemma_strings_push(acc.doc@, c);
        }
        acc.doc.push(c);
    }
    Ok(acc)
}

/// The field of the `Cli...` struct that stands for `f` (`None` when it is skipped), and the
/// names it marks as skipped.
pub fn cli_field(f: &Field, name: &str, modern: bool) -> (res: Result<
    (Option<CliFieldPlan>, Vec<String>),
    DeriveError,
>)
    requires
        f.ident is Some,
    ensures
        cli_field_spec(*f, name@, modern) == match res {
            Ok((p, sk)) => Ok(
                (
                    match p {
                        Some(x) => Some(x@),
                        None => None,
                    },
                    strings_view(sk@),
                ),
            ),
            Err(e) => Err(e),
        },
{
    let t = cli_field_type(&f.ty)?;
    let ghost tv = t@;
    let mut acc = CfAcc {
        decl: Some(CliFieldDecl::Typed(t)),
        cfg: Vec::new(),
        doc: Vec::new(),
        clap: Vec::new(),
        skip: Vec::new(),
    };
    let ghost init = acc@;
    assert(strings_view(acc.cfg@) =~= Seq::<Seq<char>>::empty());
    assert(strings_view(acc.doc@) =~= Seq::<Seq<char>>::empty());
    assert(strings_view(acc.skip@) =~= Seq::<Seq<char>>::empty());
    assert(clap_views(acc.clap@) =~= Seq::<ClapAttrView>::empty());
    let mut i: usize = 0;
    assert(f.attrs@.skip(0) =~= f.attrs@);
    while i < f.attrs.len()
        invariant
            f.ident is Some,
            i <= f.attrs@.len(),
            cli_field_type_spec(f.ty) == Ok::<CliFieldTypeView, DeriveError>(tv),
            init == (CfState {
                decl: Some(CliFieldDeclView::Typed(tv)),
                cfg: seq![],
                doc: seq![],
                clap: seq![],
                skip: seq![],
            }),
            cf_attrs(f.attrs@, init, *f, name@, modern) == cf_attrs(
                f.attrs@.skip(i as int),
                acc@,
                *f,
                name@,
                modern,
            ),
        decreases f.attrs@.len() - i,
    {
        assert(f.attrs@.skip(i as int)[0] == f.attrs@[i as int]);
        assert(f.attrs@.skip(i as int).drop_first() =~= f.attrs@.skip(i + 1));
        acc = cf_attr(acc, &f.attrs[i], f, name, modern)?;
        i = i + 1;
    }
    assert(f.attrs@.skip(i as int).len() == 0);
    let ident = match &f.ident {
        Some(id) => copy_str(id.as_str()),
        None => String::new(),
    };
    let plan = match acc.decl {
        None => None,
        Some(d) => Some(
            CliFieldPlan { ident, decl: d, cfg_attrs: acc.cfg, doc_attrs: acc.doc, clap_attrs: acc.clap },
        ),
    };
    Ok((plan, acc.skip))
}

} // verus!

verus! {

/// An optional field plan as a sequence of zero or one view.
pub open spec fn opt_plan_seq(p: Option<CliFieldPlan>) -> Seq<CliFieldPlanView> {
    match p {
        Some(x) => seq![x@],
        None => Seq::<CliFieldPlanView>::empty(),
    }
}

/// The views of a run of field plans.
pub open spec fn plan_views(v: Seq<CliFieldPlan>) -> Seq<CliFieldPlanView> {
    v.map_values(|p: CliFieldPlan| p@)
}

/// Combines what the first fields gave with the outcome of the rest.
pub open spec fn join_fields(
    ps: Seq<CliFieldPlanView>,
    sk: Seq<Seq<char>>,
    r: Result<(Seq<CliFieldPlanView>, Seq<Seq<char>>), DeriveError>,
) -> Result<(Seq<CliFieldPlanView>, Seq<Seq<char>>), DeriveError> {
    match r {
        Err(e) => Err(e),
        Ok((ps2, sk2)) => Ok((ps + ps2, sk + sk2)),
    }
}

/// The fields of the `Cli...` struct and the names of the skipped fields, in the current
/// (`modern`) or the classic reading of the attributes.
pub fn cli_fields(fields: &Vec<Field>, name: &str, modern: bool) -> (res: Result<
    (Vec<CliFieldPlan>, Vec<String>),
    DeriveError,
>)
    requires
        crate::cli_args::all_named(fields@),
    ensures
        cli_fields_spec(fields@, name@, modern) == match res {
            Ok((ps, sk)) => Ok((plan_views(ps@), strings_view(sk@))),
            Err(e) => Err(e),
        },
{
    let mut ps: Vec<CliFieldPlan> = Vec::new();
    let mut sk: Vec<String> = Vec::new();
    let mut i: usize = 0;
    assert(fields@.skip(0) =~= fields@);
    assert(plan_views(ps@) =~= Seq::<CliFieldPlanView>::empty());
    assert(strings_view(sk@) =~= Seq::<Seq<char>>::empty());
    while i < fields.len()
        invariant
            i <= fields.len(),
            crate::cli_args::all_named(fields@),
            cli_fields_spec(fields@, name@, modern) == join_fields(
                plan_views(ps@),
                strings_view(sk@),
                cli_fields_spec(fields@.skip(i as int), name@, modern),
            ),
        decreases fields.len() - i,
    {
        assert(fields@.skip(i as int)[0] == fields@[i as int]);
        assert(fields@.skip(i as int).drop_first() =~= fields@.skip(i + 1));
        assert(fields@[i as int].ident is Some);
        let ghost pv = plan_views(ps@);
        let ghost sv = strings_view(sk@);
        let (p, mut s) = cli_field(&fields[i], name, modern)?;
        let ghost s_v = strings_view(s@);
        let ghost p_v = opt_plan_seq(p);
        match p {
            Some(x) => {
                ps.push(x);
            },
            None => {},
        }
        assert(plan_views(ps@) =~= pv + p_v);
        sk.append(&mut s);
        assert(strings_view(sk@) =~= sv + s_v);
        proof {
            if let Ok((ps2, sk2)) = cli_fields_spec(fields@.skip(i + 1), name@, modern) {
                assert(pv + (p_v + ps2) =~= (pv + p_v) + ps2);
                assert(sv + (s_v + sk2) =~= (sv + s_v) + sk2);
                if p_v.len() == 0 {
                    assert(p_v + ps2 =~= ps2);
                }
            }
        }
        i = i + 1;
    }
    assert(fields@.skip(i as int).len() == 0);
    assert(plan_views(ps@) + Seq::<CliFieldPlanView>::empty() =~= plan_views(ps@));
    assert(strings_view(sk@) + Seq::<Seq<char>>::empty() =~= strings_view(sk@));
    Ok((ps, sk))
}

/// The fields of the `Cli...` struct and the names of the skipped fields.
pub fn fields(input_fields: &Vec<Field>, name: &str) -> (res: Result<
    (Vec<CliFieldPlan>, Vec<String>),
    DeriveError,
>)
    requires
        crate::cli_args::all_named(input_fields@),
    ensures
        cli_fields_spec(input_fields@, name@, true) == match res {
            Ok((ps, sk)) => Ok((plan_views(ps@), strings_view(sk@))),
            Err(e) => Err(e),
        },
{
    cli_fields(input_fields, name, true)
}

/// How a field of the struct goes into the `Cli...` struct in `impl From<Name> for CliName`.
#[derive(Debug)]
pub enum FieldConversion {
    /// The field is skipped and left out.
    Skipped,
    /// `<field>: args.<field>.into()`.
    Into(String),
    /// `<field>: Some(args.<field>.into())`.
    SomeInto(String),
}

/// `FieldConversion` as plain sequences.
pub enum FieldConversionView {
    Skipped,
    Into(Seq<char>),
    SomeInto(Seq<char>),
}

impl View for FieldConversion {
    type V = FieldConversionView;

    open spec fn view(&self) -> FieldConversionView {
        match self {
            FieldConversion::Skipped => FieldConversionView::Skipped,
            FieldConversion::Into(f) => FieldConversionView::Into(f@),
            FieldConversion::SomeInto(f) => FieldConversionView::SomeInto(f@),
        }
    }
}

/// How a field converts: a skipped field is left out; a `long_vec_multiple_opt` field, an
/// `Option` or a `bool` converts as it is; any other path type is wrapped in `Some`. A type
/// that is not a path, or a path without segments, is refused.
pub open spec fn field_conversion_spec(f: Field, skip: Seq<Seq<char>>) -> Result<
    FieldConversionView,
    DeriveError,
> {
    let id = f.ident->0@;
    if skip.contains(id) {
        Ok(FieldConversionView::Skipped)
    } else if any_group_passes(
        crate::field_attrs::ic_tokens(f),
        Probe::Equals("long_vec_multiple_opt"),
    ) {
        Ok(FieldConversionView::Into(id))
    } else {
        match f.ty.segments {
            None => Err(DeriveError::OnlyTypePath),
            Some(segs) => if segs@.len() == 0 {
                Err(DeriveError::OnlyPathSegment)
            } else if segs@[0].ident@ == "Option"@ || segs@[0].ident@ == "bool"@ {
                Ok(FieldConversionView::Into(id))
            } else {
                Ok(FieldConversionView::SomeInto(id))
            },
        }
    }
}

/// How a field converts in the classic derive: a skipped field is left out, an `Option`
/// converts as it is, and any other path type (a `bool` too) is wrapped in `Some`.
pub open spec fn for_cli_field_spec(f: Field, skip: Seq<Seq<char>>) -> Result<
    FieldConversionView,
    DeriveError,
> {
    let id = f.ident->0@;
    if skip.contains(id) {
        Ok(FieldConversionView::Skipped)
    } else {
        match f.ty.segments {
            None => Err(DeriveError::OnlyTypePath),
            Some(segs) => if segs@.len() == 0 {
                Err(DeriveError::OnlyPathSegment)
            } else if segs@[0].ident@ == "Option"@ {
                Ok(FieldConversionView::Into(id))
            } else {
                Ok(FieldConversionView::SomeInto(id))
            },
        }
    }
}

/// Whether `s` is one of `v`.
pub fn contains_string(v: &Vec<String>, s: &str) -> (res: bool)
    ensures
        res == strings_view(v@).contains(s@),
{
    let mut i: usize = 0;
    while i < v.len()
        invariant
            i <= v.len(),
            forall|k: int| 0 <= k < i ==> v@[k]@ != s@,
        decreases v.len() - i,
    {
        if str_eq(v[i].as_str(), s) {
            assert(strings_view(v@)[i as int] == s@);
            return true;
        }
        i = i + 1;
    }
    assert forall|k: int| 0 <= k < strings_view(v@).len() implies strings_view(v@)[k] != s@ by {
        assert(strings_view(v@)[k] == v@[k]@);
    }
    false
}

fn conversion_by_type(f: &Field, id: &str, bool_as_is: bool) -> (res: Result<FieldConversion, DeriveError>)
    ensures
        match f.ty.segments {
            None => res == Err::<FieldConversion, DeriveError>(DeriveError::OnlyTypePath),
            Some(segs) => if segs@.len() == 0 {
                res == Err::<FieldConversion, DeriveError>(DeriveError::OnlyPathSegment)
            } else if segs@[0].ident@ == "Option"@ || (bool_as_is && segs@[0].ident@ == "bool"@) {
                res matches Ok(c) && c@ == FieldConversionView::Into(id@)
            } else {
                res matches Ok(c) && c@ == FieldConversionView::SomeInto(id@)
            },
        },
{
    match &f.ty.segments {
        None => Err(DeriveError::OnlyTypePath),
        Some(segs) => {
            if segs.len() == 0 {
                return Err(DeriveError::OnlyPathSegment);
            }
            let s = segs[0].ident.as_str();
            if str_eq(s, "Option") || (bool_as_is && str_eq(s, "bool")) {
                Ok(FieldConversion::Into(copy_str(id)))
            } else {
                Ok(FieldConversion::SomeInto(copy_str(id)))
            }
        },
    }
}

/// How a field goes into the `Cli...` struct in `impl From<Name> for CliName`.
pub fn field_conversion(field: &Field, ident_skip_field_vec: &Vec<String>) -> (res: Result<
    FieldConversion,
    DeriveError,
>)
    requires
        field.ident is Some,
    ensures
        field_conversion_spec(*field, strings_view(ident_skip_field_vec@)) == match res {
            Ok(c) => Ok(c@),
            Err(e) => Err(e),
        },
{
    let id: &String = match &field.ident {
        Some(s) => s,
        None => {
            return Ok(FieldConversion::Skipped);
        },
    };
    if contains_string(ident_skip_field_vec, id.as_str()) {
        return Ok(FieldConversion::Skipped);
    }
    if any_group(&field.attrs, Some("interactive_clap"), &Probe::Equals("long_vec_multiple_opt")) {
        return Ok(FieldConversion::Into(copy_str(id.as_str())));
    }
    conversion_by_type(field, id.as_str(), true)
}

/// How a field goes into the `Cli...` struct in the classic derive.
pub fn for_cli_field(field: &Field, ident_skip_field_vec: &Vec<String>) -> (res: Result<
    FieldConversion,
    DeriveError,
>)
    requires
        field.ident is Some,
    ensures
        for_cli_field_spec(*field, strings_view(ident_skip_field_vec@)) == match res {
            Ok(c) => Ok(c@),
            Err(e) => Err(e),
        },
{
    let id: &String = match &field.ident {
        Some(s) => s,
        None => {
            return Ok(FieldConversion::Skipped);
        },
    };
    if contains_string(ident_skip_field_vec, id.as_str()) {
        return Ok(FieldConversion::Skipped);
    }
    conversion_by_type(field, id.as_str(), false)
}

/// The conversions of the fields that are not skipped, in field order; a refusal of the
/// first field that refuses.
pub open spec fn conversions_spec(fields: Seq<Field>, skip: Seq<Seq<char>>, modern: bool) -> Result<
    Seq<FieldConversionView>,
    DeriveError,
>
    decreases fields.len(),
{
    if fields.len() == 0 {
        Ok(seq![])
    } else {
        let c = if modern {
            field_conversion_spec(fields[0], skip)
        } else {
            for_cli_field_spec(fields[0], skip)
        };
        match c {
            Err(e) => Err(e),
            Ok(cv) => match conversions_spec(fields.drop_first(), skip, modern) {
                Err(e) => Err(e),
                Ok(rest) => if cv is Skipped {
                    Ok(rest)
                } else {
                    Ok(seq![cv] + rest)
                },
            },
        }
    }
}

/// The views of a run of conversions.
pub open spec fn conversion_views(v: Seq<FieldConversion>) -> Seq<FieldConversionView> {
    v.map_values(|c: FieldConversion| c@)
}

/// The conversions of the fields that are not skipped, in the current (`modern`) or the
/// classic derive.
pub fn conversions(fields: &Vec<Field>, skip: &Vec<String>, modern: bool) -> (res: Result<
    Vec<FieldConversion>,
    DeriveError,
>)
    requires
        crate::cli_args::all_named(fields@),
    ensures
        conversions_spec(fields@, strings_view(skip@), modern) == match res {
            Ok(v) => Ok(conversion_views(v@)),
            Err(e) => Err(e),
        },
{
    let mut out: Vec<FieldConversion> = Vec::new();
    let mut i: usize = 0;
    assert(fields@.skip(0) =~= fields@);
    while i < fields.len()
        invariant
            i <= fields.len(),
            crate::cli_args::all_named(fields@),
            conversions_spec(fields@, strings_view(skip@), modern) == match conversions_spec(
                fields@.skip(i as int),
                strings_view(skip@),
                modern,
            ) {
                Err(e) => Err(e),
                Ok(rest) => Ok(conversion_views(out@) + rest),
            },
        decreases fields.len() - i,
    {
        assert(fields@.skip(i as int)[0] == fields@[i as int]);
        assert(fields@.skip(i as int).drop_first() =~= fields@.skip(i + 1));
        assert(fields@[i as int].ident is Some);
        let ghost before = conversion_views(out@);
        let c = if modern {
            field_conversion(&fields[i], skip)?
        } else {
            for_cli_field(&fields[i], skip)?
        };
        match c {
            FieldConversion::Skipped => {},
            _ => {
                let ghost cv = c@;
                out.push(c);
                assert(conversion_views(out@) =~= before.push(cv));
                proof {
                    if let Ok(rest) = conversions_spec(fields@.skip(i + 1), strings_view(skip@), modern) {
                        assert(before + (seq![cv] + rest) =~= before.push(cv) + rest);
                    }
                }
            },
        }
        i = i + 1;
    }
    assert(fields@.skip(i as int).len() == 0);
    assert(conversion_views(out@) + Seq::<FieldConversionView>::empty() =~= conversion_views(out@));
    Ok(out)
}

} // verus!
