//! `#[interactive_clap(context = ..)]`, `input_context`, `output_context` and
//! `skip_default_from_cli` on the derived item.

use vstd::prelude::*;
use crate::model::{AttrToken, DeriveInput, Token, TokenKind};
use crate::tokens::tokens_of;
use crate::text::{copy_str, seq_contains, str_contains};

verus! {

/// The context types named on the item, each as the tokens after `name =`.
#[derive(Debug)]
pub struct InteractiveClapAttrsContext {
    pub context_dir: Option<Vec<String>>,
    pub input_context_dir: Option<Vec<String>>,
    pub output_context_dir: Option<Vec<String>>,
    pub is_skip_default_from_cli: bool,
}

/// `InteractiveClapAttrsContext` as plain sequences.
pub struct ContextView {
    pub context_dir: Option<Seq<Seq<char>>>,
    pub input_context_dir: Option<Seq<Seq<char>>>,
    pub output_context_dir: Option<Seq<Seq<char>>>,
    pub is_skip_default_from_cli: bool,
}

/// The printed tokens of a run of strings.
pub open spec fn strings_view(v: Seq<String>) -> Seq<Seq<char>> {
    v.map_values(|s: String| s@)
}

/// An optional run of strings as sequences.
pub open spec fn opt_strings_view(o: Option<Vec<String>>) -> Option<Seq<Seq<char>>> {
    match o {
        Some(v) => Some(strings_view(v@)),
        None => None,
    }
}

impl View for InteractiveClapAttrsContext {
    type V = ContextView;

    open spec fn view(&self) -> ContextView {
        ContextView {
            context_dir: opt_strings_view(self.context_dir),
            input_context_dir: opt_strings_view(self.input_context_dir),
            output_context_dir: opt_strings_view(self.output_context_dir),
            is_skip_default_from_cli: self.is_skip_default_from_cli,
        }
    }
}

/// The printed tokens of a group after its first two (`context` and `=`).
pub open spec fn after_name(t: AttrToken) -> Seq<Seq<char>> {
    t.items@.skip(2).map_values(|x: Token| x.text@)
}

/// The settings read so far: the last tokens given for each context, and the flag.
pub struct ContextState {
    pub context: Seq<Seq<char>>,
    pub input: Seq<Seq<char>>,
    pub output: Seq<Seq<char>>,
    pub skip: bool,
}

/// What one token of an `interactive_clap` attribute of the item sets.
pub open spec fn context_step(st: ContextState, t: AttrToken) -> ContextState {
    if t.kind != TokenKind::Group {
        st
    } else {
        let s = t.stream@;
        let st1 = if seq_contains(s, "output_context"@) {
            ContextState { output: after_name(t), ..st }
        } else if seq_contains(s, "input_context"@) {
            ContextState { input: after_name(t), ..st }
        } else if seq_contains(s, "context"@) {
            ContextState { context: after_name(t), ..st }
        } else {
            st
        };
        if seq_contains(s, "skip_default_from_cli"@) {
            ContextState { skip: true, ..st1 }
        } else {
            st1
        }
    }
}

/// The settings after the tokens `ts`, read in order.
pub open spec fn context_fold(ts: Seq<AttrToken>, st: ContextState) -> ContextState
    decreases ts.len(),
{
    if ts.len() == 0 {
        st
    } else {
        context_fold(ts.drop_first(), context_step(st, ts[0]))
    }
}

/// Tokens given for a context, or `None` when there are none.
pub open spec fn nonempty(s: Seq<Seq<char>>) -> Option<Seq<Seq<char>>> {
    if s.len() == 0 {
        None
    } else {
        Some(s)
    }
}

/// The tokens of the item's `interactive_clap` attributes.
pub open spec fn item_ic_tokens(ast: DeriveInput) -> Seq<AttrToken> {
    tokens_of(ast.attrs@, Some("interactive_clap"@))
}

/// What `InteractiveClapAttrsContext::new` reads from the item.
pub open spec fn context_spec(ast: DeriveInput) -> ContextView {
    let st = context_fold(
        item_ic_tokens(ast),
        ContextState { context: seq![], input: seq![], output: seq![], skip: false },
    );
    ContextView {
        context_dir: nonempty(st.context),
        input_context_dir: nonempty(st.input),
        output_context_dir: nonempty(st.output),
        is_skip_default_from_cli: st.skip,
    }
}

/// The item can be read without a panic: every group that mentions `context` has the two
/// tokens `name =` before the type.
pub open spec fn context_ok(ast: DeriveInput) -> bool {
    forall|k: int|
        0 <= k < item_ic_tokens(ast).len() && (#[trigger] item_ic_tokens(ast)[k]).kind
            == TokenKind::Group && seq_contains(item_ic_tokens(ast)[k].stream@, "context"@)
            ==> item_ic_tokens(ast)[k].items@.len() >= 2
}

/// The type that the generated functions take as their context.
#[derive(Debug)]
pub enum ContextDir {
    /// A type given by these tokens.
    Tokens(Vec<String>),
    /// `()`.
    Unit,
}

/// `ContextDir` as plain sequences.
pub enum ContextDirView {
    Tokens(Seq<Seq<char>>),
    Unit,
}

impl View for ContextDir {
    type V = ContextDirView;

    open spec fn view(&self) -> ContextDirView {
        match self {
            ContextDir::Tokens(v) => ContextDirView::Tokens(strings_view(v@)),
            ContextDir::Unit => ContextDirView::Unit,
        }
    }
}

/// The input context: `context` when it gives tokens, else `input_context`, else `()`.
pub open spec fn input_context_spec(c: ContextView) -> ContextDirView {
    match c.context_dir {
        Some(v) if v.len() > 0 => ContextDirView::Tokens(v),
        _ => match c.input_context_dir {
            Some(v) => ContextDirView::Tokens(v),
            None => ContextDirView::Unit,
        },
    }
}

/// A copy of a run of strings.
pub fn copy_strings(v: &Vec<String>) -> (res: Vec<String>)
    ensures
        strings_view(res@) == strings_view(v@),
{
    let mut out: Vec<String> = Vec::new();
    let mut i: usize = 0;
    while i < v.len()
        invariant
            i <= v.len(),
            strings_view(out@) == strings_view(v@.take(i as int)),
        decreases v.len() - i,
    {
        let ghost before = out@;
        out.push(copy_str(v[i].as_str()));
        assert(v@.take(i + 1) =~= v@.take(i as int).push(v@[i as int]));
        assert(strings_view(out@) =~= strings_view(before).push(v@[i as int]@));
        assert(strings_view(v@.take(i + 1)) =~= strings_view(v@.take(i as int)).push(v@[i as int]@));
        i = i + 1;
    }
    assert(v@.take(v.len() as int) =~= v@);
    out
}

fn texts_after_name(t: &AttrToken) -> (res: Vec<String>)
    requires
        t.items@.len() >= 2,
    ensures
        strings_view(res@) == after_name(*t),
{
    let mut out: Vec<String> = Vec::new();
    let mut i: usize = 2;
    while i < t.items.len()
        invariant
            2 <= i <= t.items@.len(),
            strings_view(out@) == t.items@.subrange(2, i as int).map_values(|x: Token| x.text@),
        decreases t.items@.len() - i,
    {
        let ghost before = out@;
        out.push(copy_str(t.items[i].text.as_str()));
        assert(strings_view(out@) =~= strings_view(before).push(t.items@[i as int].text@));
        assert(t.items@.subrange(2, i + 1) =~= t.items@.subrange(2, i as int).push(t.items@[i as int]));
        assert(t.items@.subrange(2, i + 1).map_values(|x: Token| x.text@) =~= t.items@.subrange(
            2,
            i as int,
        ).map_values(|x: Token| x.text@).push(t.items@[i as int].text@));
        i = i + 1;
    }
    assert(t.items@.subrange(2, i as int) =~= t.items@.skip(2));
    out
}

fn nonempty_exec(v: Vec<String>) -> (res: Option<Vec<String>>)
    ensures
        opt_strings_view(res) == nonempty(strings_view(v@)),
{
    if v.len() == 0 {
        None
    } else {
        Some(v)
    }
}

/// Whether the item's context attributes can be read without a panic: every group of its
/// `interactive_clap` attributes that mentions `context` has at least two tokens.
pub fn context_readable(ast: &DeriveInput) -> (res: bool)
    ensures
        res == context_ok(*ast),
{
    let ghost ts = item_ic_tokens(*ast);
    let refs = crate::tokens::select_tokens(&ast.attrs, Some("interactive_clap"));
    let mut k: usize = 0;
    while k < refs.len()
        invariant
            ts == item_ic_tokens(*ast),
            crate::tokens::refs_match(ast.attrs@, refs@, ts),
            k <= refs.len(),
            forall|q: int|
                0 <= q < k && (#[trigger] ts[q]).kind == TokenKind::Group && seq_contains(
                    ts[q].stream@,
                    "context"@,
                ) ==> ts[q].items@.len() >= 2,
        decreases refs.len() - k,
    {
        let (ai, ti) = refs[k];
        assert(refs@[k as int] == (ai, ti));
        assert(ast.attrs@[ai as int].tokens@[ti as int] == ts[k as int]);
        let t = &ast.attrs[ai].tokens[ti];
        if t.kind == TokenKind::Group && str_contains(t.stream.as_str(), "context") && t.items.len() < 2 {
            return false;
        }
        k = k + 1;
    }
    true
}

impl InteractiveClapAttrsContext {
    /// Reads the context settings from the item's `interactive_clap` attributes.
    pub fn new(ast: &DeriveInput) -> (res: Self)
        requires
            context_ok(*ast),
        ensures
            res@ == context_spec(*ast),
    {
        let ghost ts = item_ic_tokens(*ast);
        let refs = crate::tokens::select_tokens(&ast.attrs, Some("interactive_clap"));
        let mut context: Vec<String> = Vec::new();
        let mut input: Vec<String> = Vec::new();
        let mut output: Vec<String> = Vec::new();
        let mut skip = false;
        let ghost init = ContextState { context: seq![], input: seq![], output: seq![], skip: false };
        let mut k: usize = 0;
        assert(ts.skip(0) =~= ts);
        assert(strings_view(context@) =~= Seq::<Seq<char>>::empty());
        assert(strings_view(input@) =~= Seq::<Seq<char>>::empty());
        assert(strings_view(output@) =~= Seq::<Seq<char>>::empty());
        while k < refs.len()
            invariant
                ts == item_ic_tokens(*ast),
                context_ok(*ast),
                crate::tokens::refs_match(ast.attrs@, refs@, ts),
                k <= refs.len(),
                init == (ContextState { context: seq![], input: seq![], output: seq![], skip: false }),
                context_fold(ts, init) == context_fold(
                    ts.skip(k as int),
                    ContextState {
                        context: strings_view(context@),
                        input: strings_view(input@),
                        output: strings_view(output@),
                        skip,
                    },
                ),
            decreases refs.len() - k,
        {
            let (ai, ti) = refs[k];
            assert(refs@[k as int] == (ai, ti));
            assert(ast.attrs@[ai as int].tokens@[ti as int] == ts[k as int]);
            assert(ts.skip(k as int)[0] == ts[k as int]);
            assert(ts.skip(k as int).drop_first() =~= ts.skip(k + 1));
            let t = &ast.attrs[ai].tokens[ti];
            if t.kind == TokenKind::Group {
                let s = t.stream.as_str();
                if str_contains(s, "output_context") {
                    proof {
                        reveal_strlit("output_context");
                        reveal_strlit("context");
                        assert("output_context"@.subrange(7, 14) =~= "context"@);
                        crate::text::lemma_contains_part(t.stream@, "output_context"@, "context"@, 7);
                    }
                    output = texts_after_name(t);
                } else if str_contains(s, "input_context") {
                    proof {
                        reveal_strlit("input_context");
                        reveal_strlit("context");
                        assert("input_context"@.subrange(6, 13) =~= "context"@);
                        crate::text::lemma_contains_part(t.stream@, "input_context"@, "context"@, 6);
                    }
                    input = texts_after_name(t);
                } else if str_contains(s, "context") {
                    context = texts_after_name(t);
                }
                if str_contains(s, "skip_default_from_cli") {
                    skip = true;
                }
            }
            k = k + 1;
        }
        assert(ts.skip(k as int).len() == 0);
        InteractiveClapAttrsContext {
            context_dir: nonempty_exec(context),
            input_context_dir: nonempty_exec(input),
            output_context_dir: nonempty_exec(output),
            is_skip_default_from_cli: skip,
        }
    }

    /// The context type that the generated functions take: `context` when it names one,
    /// else `input_context`, else `()`.
    pub fn get_input_context_dir(&self) -> (res: ContextDir)
        ensures
            res@ == input_context_spec(self@),
    {
        match &self.context_dir {
            Some(v) => if v.len() > 0 {
                return ContextDir::Tokens(copy_strings(v));
            },
            None => {},
        }
        match &self.input_context_dir {
            Some(v) => ContextDir::Tokens(copy_strings(v)),
            None => ContextDir::Unit,
        }
    }
}

} // verus!
