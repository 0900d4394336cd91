//! The per-field prompts `input_<field>` that the derive writes for the fields that are
//! read interactively.

use vstd::prelude::*;
use crate::model::{Attr, AttrToken, DeriveInput, Field, TokenKind, path_is, attr_path_is};
use crate::cli_args::all_named;
use crate::context::{ContextDir, ContextDirView, InteractiveClapAttrsContext, context_ok,
    context_spec, input_context_spec, strings_view};
use crate::field_attrs::{all_tokens, doc_attr_literals, doc_literals, ic_tokens,
    is_field_with_skip_default_input_arg, is_field_with_subcommand,
    is_field_without_skip_default_input_arg, is_field_without_subcommand, is_skip_interactive_input};
use crate::tokens::{Probe, any_group_passes, any_text_passes};
use crate::text::{copy_str, push_char};

verus! {

/// Which of the derive's versions of the prompts is meant.
#[derive(Clone, Copy, PartialEq, Eq, Structural, Debug)]
pub enum InputVersion {
    /// `structs::input_args_impl`.
    Structs,
    /// `methods::input_arg`.
    Methods,
    /// The classic derive, prompting with `dialoguer`.
    Classic,
}

/// The prompt text of an `input_<field>` function.
#[derive(Debug)]
pub enum Prompt {
    /// The field's name.
    FieldName(String),
    /// The string literals of the field's doc comments, concatenated and trimmed.
    DocLiterals(Vec<String>),
    /// A text given as it is.
    Text(String),
}

/// `Prompt` as plain sequences.
pub enum PromptView {
    FieldName(Seq<char>),
    DocLiterals(Seq<Seq<char>>),
    Text(Seq<char>),
}

impl View for Prompt {
    type V = PromptView;

    open spec fn view(&self) -> PromptView {
        match self {
            Prompt::FieldName(s) => PromptView::FieldName(s@),
            Prompt::DocLiterals(v) => PromptView::DocLiterals(strings_view(v@)),
            Prompt::Text(s) => PromptView::Text(s@),
        }
    }
}

/// `fn input_<ident>(_context: &<context>) -> color_eyre::eyre::Result<..<ty>..>` prompting
/// with `prompt`.
#[derive(Debug)]
pub struct InputArgFn {
    pub ident: String,
    pub ty: String,
    pub context: ContextDir,
    pub prompt: Prompt,
}

/// `InputArgFn` as plain sequences.
pub struct InputArgFnView {
    pub ident: Seq<char>,
    pub ty: Seq<char>,
    pub context: ContextDirView,
    pub prompt: PromptView,
}

impl View for InputArgFn {
    type V = InputArgFnView;

    open spec fn view(&self) -> InputArgFnView {
        InputArgFnView { ident: self.ident@, ty: self.ty@, context: self.context@, prompt: self.prompt@ }
    }
}

/// The views of a run of prompt functions.
pub open spec fn input_views(v: Seq<InputArgFn>) -> Seq<InputArgFnView> {
    v.map_values(|f: InputArgFn| f@)
}

/// Whether a field is prompted for at all: it holds no subcommand and is not marked
/// `skip_default_input_arg` (nor `flatten`, in the `structs` version).
pub open spec fn prompted(f: Field, v: InputVersion) -> bool {
    let no_sub = !any_group_passes(all_tokens(f), Probe::Either("named_arg", "subcommand"));
    match v {
        InputVersion::Structs => no_sub && !any_text_passes(
            ic_tokens(f),
            Probe::Either("skip_default_input_arg", "flatten"),
        ),
        _ => no_sub && !any_group_passes(ic_tokens(f), Probe::Contains("skip_default_input_arg")),
    }
}

/// The last literal among the tokens, printed, or nothing.
pub open spec fn last_literal(ts: Seq<AttrToken>) -> Seq<char>
    decreases ts.len(),
{
    if ts.len() == 0 {
        seq![]
    } else if ts.last().kind == TokenKind::Literal {
        ts.last().text@
    } else {
        last_literal(ts.drop_last())
    }
}

/// For each doc comment, its last literal without its `"` characters.
pub open spec fn doc_texts_unquoted(attrs: Seq<Attr>) -> Seq<Seq<char>>
    decreases attrs.len(),
{
    if attrs.len() == 0 {
        seq![]
    } else {
        doc_texts_unquoted(attrs.drop_last()) + if path_is(attrs.last(), "doc"@) {
            seq![last_literal(attrs.last().tokens@).filter(|c: char| c != '"')]
        } else {
            seq![]
        }
    }
}

/// The parts joined with `sep` between each two.
pub open spec fn join(parts: Seq<Seq<char>>, sep: Seq<char>) -> Seq<char>
    decreases parts.len(),
{
    if parts.len() == 0 {
        seq![]
    } else if parts.len() == 1 {
        parts[0]
    } else {
        join(parts.drop_last(), sep) + sep + parts.last()
    }
}

/// The prompt of the classic derive: the doc comments without quotes, joined with a line
/// break and two spaces.
pub open spec fn classic_prompt_spec(attrs: Seq<Attr>) -> Seq<char> {
    join(doc_texts_unquoted(attrs), "\n  "@)
}

/// The prompt function of a field that is prompted for, or `None` when the field is marked
/// `skip_interactive_input` (`structs` and `methods` versions).
pub open spec fn input_arg_spec(f: Field, ctx: ContextDirView, v: InputVersion) -> Option<InputArgFnView> {
    let id = f.ident->0@;
    if f.attrs@.len() == 0 {
        Some(
            InputArgFnView {
                ident: id,
                ty: f.ty.text@,
                context: ctx,
                prompt: if v == InputVersion::Classic {
                    PromptView::Text(seq![])
                } else {
                    PromptView::FieldName(id)
                },
            },
        )
    } else if v != InputVersion::Classic && any_group_passes(
        ic_tokens(f),
        Probe::Either("skip_interactive_input", "long_vec_multiple_opt"),
    ) {
        None
    } else {
        Some(
            InputArgFnView {
                ident: id,
                ty: f.ty.text@,
                context: ctx,
                prompt: if v == InputVersion::Classic {
                    PromptView::Text(classic_prompt_spec(f.attrs@))
                } else {
                    PromptView::DocLiterals(doc_literals(f.attrs@))
                },
            },
        )
    }
}

/// The prompt functions of the fields, in field order.
pub open spec fn input_args_spec(fields: Seq<Field>, ctx: ContextDirView, v: InputVersion) -> Seq<
    InputArgFnView,
>
    decreases fields.len(),
{
    if fields.len() == 0 {
        seq![]
    } else {
        input_args_spec(fields.drop_last(), ctx, v) + if prompted(fields.last(), v) {
            match input_arg_spec(fields.last(), ctx, v) {
                Some(x) => seq![x],
                None => seq![],
            }
        } else {
            seq![]
        }
    }
}

/// The prompt functions of a struct: none in the classic derive when the struct is marked
/// `skip_default_from_cli`.
pub open spec fn struct_input_args_spec(ast: DeriveInput, fields: Seq<Field>, v: InputVersion) -> Seq<
    InputArgFnView,
> {
    let c = context_spec(ast);
    if v == InputVersion::Classic && c.is_skip_default_from_cli {
        seq![]
    } else {
        input_args_spec(fields, input_context_spec(c), v)
    }
}

fn last_literal_of(ts: &Vec<AttrToken>) -> (res: String)
    ensures
        res@ == last_literal(ts@),
{
    let mut out = String::new();
    let mut j: usize = 0;
    while j < ts.len()
        invariant
            j <= ts@.len(),
            out@ == last_literal(ts@.take(j as int)),
        decreases ts@.len() - j,
    {
        assert(ts@.take(j + 1).drop_last() =~= ts@.take(j as int));
        if ts[j].kind == TokenKind::Literal {
            out = copy_str(ts[j].text.as_str());
        }
        j = j + 1;
    }
    assert(ts@.take(ts@.len() as int) =~= ts@);
    out
}

fn unquoted(s: &str) -> (res: String)
    ensures
        res@ == s@.filter(|c: char| c != '"'),
{
    let v = crate::text::chars_of(s);
    let mut out = String::new();
    let mut i: usize = 0;
    while i < v.len()
        invariant
            v@ == s@,
            i <= v.len(),
            out@ == s@.take(i as int).filter(|c: char| c != '"'),
        decreases v.len() - i,
    {
        reveal(Seq::filter);
        assert(s@.take(i + 1).drop_last() =~= s@.take(i as int));
        if v[i] != '"' {
            push_char(&mut out, v[i]);
        }
        i = i + 1;
    }
    assert(s@.take(s@.len() as int) =~= s@);
    out
}

/// The prompt of the classic derive for a field with attributes.
pub fn classic_prompt(attrs: &Vec<Attr>) -> (res: String)
    ensures
        res@ == classic_prompt_spec(attrs@),
{
    let mut parts: Vec<String> = Vec::new();
    let mut i: usize = 0;
    assert(strings_view(parts@) =~= Seq::<Seq<char>>::empty());
    while i < attrs.len()
        invariant
            i <= attrs.len(),
            strings_view(parts@) == doc_texts_unquoted(attrs@.take(i as int)),
        decreases attrs.len() - i,
    {
        assert(attrs@.take(i + 1).drop_last() =~= attrs@.take(i as int));
        let ghost before = parts@;
        if attr_path_is(&attrs[i], "doc") {
            let l = last_literal_of(&attrs[i].tokens);
            let u = unquoted(l.as_str());
            parts.push(u);
            assert(strings_view(parts@) =~= strings_view(before).push(u@));
        } else {
            assert(strings_view(parts@) + Seq::<Seq<char>>::empty() =~= strings_view(parts@));
        }
        i = i + 1;
    }
    assert(attrs@.take(attrs.len() as int) =~= attrs@);
    let ghost ps = strings_view(parts@);
    let mut out = String::new();
    let mut k: usize = 0;
    while k < parts.len()
        invariant
            ps == strings_view(parts@),
            k <= parts.len(),
            out@ == join(ps.take(k as int), "\n  "@),
        decreases parts.len() - k,
    {
        assert(ps.take(k + 1).drop_last() =~= ps.take(k as int));
        if k > 0 {
            out.append("\n  ");
        }
        out.append(parts[k].as_str());
        proof {
            if k == 0 {
                assert(ps.take(1) =~= seq![ps[0]]);
                assert(out@ =~= ps[0]);
            }
        }
        k = k + 1;
    }
    assert(ps.take(ps.len() as int) =~= ps);
    out
}

fn copy_context(c: &ContextDir) -> (res: ContextDir)
    ensures
        res@ == c@,
{
    match c {
        ContextDir::Tokens(v) => ContextDir::Tokens(crate::context::copy_strings(v)),
        ContextDir::Unit => ContextDir::Unit,
    }
}

fn is_prompted(f: &Field, v: InputVersion) -> (res: bool)
    ensures
        res == prompted(*f, v),
{
    match v {
        InputVersion::Structs => !is_field_with_subcommand(f) && !is_field_with_skip_default_input_arg(f),
        _ => is_field_without_subcommand(f) && is_field_without_skip_default_input_arg(f),
    }
}

fn input_arg(f: &Field, ctx: &ContextDir, v: InputVersion) -> (res: Option<InputArgFn>)
    requires
        f.ident is Some,
    ensures
        match res {
            Some(x) => input_arg_spec(*f, ctx@, v) == Some(x@),
            None => input_arg_spec(*f, ctx@, v) is None,
        },
{
    let id = match &f.ident {
        Some(s) => copy_str(s.as_str()),
        None => String::new(),
    };
    if f.attrs.len() == 0 {
        let prompt = if v == InputVersion::Classic {
            Prompt::Text(String::new())
        } else {
            Prompt::FieldName(copy_str(id.as_str()))
        };
        return Some(InputArgFn { ident: id, ty: copy_str(f.ty.text.as_str()), context: copy_context(ctx), prompt });
    }
    if v != InputVersion::Classic && is_skip_interactive_input(f) {
        return None;
    }
    let prompt = if v == InputVersion::Classic {
        Prompt::Text(classic_prompt(&f.attrs))
    } else {
        Prompt::DocLiterals(doc_attr_literals(&f.attrs))
    };
    Some(InputArgFn { ident: id, ty: copy_str(f.ty.text.as_str()), context: copy_context(ctx), prompt })
}

/// The prompt functions of the fields, in the given version, with the given context type.
pub fn input_args(fields: &Vec<Field>, ctx: &ContextDir, v: InputVersion) -> (res: Vec<InputArgFn>)
    requires
        all_named(fields@),
    ensures
        input_views(res@) == input_args_spec(fields@, ctx@, v),
{
    let mut out: Vec<InputArgFn> = Vec::new();
    let mut i: usize = 0;
    assert(input_views(out@) =~= Seq::<InputArgFnView>::empty());
    while i < fields.len()
        invariant
            i <= fields.len(),
            all_named(fields@),
            input_views(out@) == input_args_spec(fields@.take(i as int), ctx@, v),
        decreases fields.len() - i,
    {
        assert(fields@.take(i + 1).drop_last() =~= fields@.take(i as int));
        assert(fields@[i as int].ident is Some);
        let ghost before = input_views(out@);
        let mut pushed = false;
        if is_prompted(&fields[i], v) {
            match input_arg(&fields[i], ctx, v) {
                Some(x) => {
                    out.push(x);
                    pushed = true;
                    assert(input_views(out@) =~= before.push(out@.last()@));
                },
                None => {},
            }
        }
        if !pushed {
            assert(before + Seq::<InputArgFnView>::empty() =~= before);
        }
        i = i + 1;
    }
    assert(fields@.take(fields.len() as int) =~= fields@);
    out
}

/// The prompt functions of a struct in the given version, reading the context type from the
/// item.
pub fn struct_input_args(ast: &DeriveInput, fields: &Vec<Field>, v: InputVersion) -> (res: Vec<InputArgFn>)
    requires
        all_named(fields@),
        context_ok(*ast),
    ensures
        input_views(res@) == struct_input_args_spec(*ast, fields@, v),
{
    let c = InteractiveClapAttrsContext::new(ast);
    if v == InputVersion::Classic && c.is_skip_default_from_cli {
        let out: Vec<InputArgFn> = Vec::new();
        assert(input_views(out@) =~= Seq::<InputArgFnView>::empty());
        return out;
    }
    let ctx = c.get_input_context_dir();
    input_args(fields, &ctx, v)
}

} // verus!
