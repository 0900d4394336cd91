//! What the derives ask of a field's attributes.

use vstd::prelude::*;
use crate::model::Field;
use crate::error::DeriveError;
use crate::tokens::{
    Probe, any_group, any_group_passes, any_text, any_text_passes, scan, scan_groups,
    tokens_of,
};

verus! {

/// The tokens of the field's `#[interactive_clap(...)]` attributes.
pub open spec fn ic_tokens(f: Field) -> Seq<crate::model::AttrToken> {
    tokens_of(f.attrs@, Some("interactive_clap"@))
}

/// The tokens of all of the field's attributes.
pub open spec fn all_tokens(f: Field) -> Seq<crate::model::AttrToken> {
    tokens_of(f.attrs@, None)
}

/// Whether some token of the field's attributes, printed, mentions `subargs`.
pub fn is_field_with_subargs(field: &Field) -> (res: bool)
    ensures
        res == any_text_passes(all_tokens(*field), Probe::Contains("subargs")),
{
    if field.attrs.len() == 0 {
        return false;
    }
    any_text(&field.attrs, None, &Probe::Contains("subargs"))
}

/// Whether some token of the field's `interactive_clap` attributes, printed, mentions
/// `skip_default_input_arg` or `flatten`.
pub fn is_field_with_skip_default_input_arg(field: &Field) -> (res: bool)
    ensures
        res == any_text_passes(
            ic_tokens(*field),
            Probe::Either("skip_default_input_arg", "flatten"),
        ),
{
    if field.attrs.len() == 0 {
        return false;
    }
    any_text(
        &field.attrs,
        Some("interactive_clap"),
        &Probe::Either("skip_default_input_arg", "flatten"),
    )
}

/// Whether no group of the field's `interactive_clap` attributes mentions
/// `skip_default_input_arg`.
pub fn is_field_without_skip_default_input_arg(field: &Field) -> (res: bool)
    ensures
        res == !any_group_passes(ic_tokens(*field), Probe::Contains("skip_default_input_arg")),
{
    if field.attrs.len() == 0 {
        return true;
    }
    !any_group(&field.attrs, Some("interactive_clap"), &Probe::Contains("skip_default_input_arg"))
}

/// Whether a group of the field's `interactive_clap` attributes mentions
/// `skip_interactive_input` or `long_vec_multiple_opt` (which implies it): no prompt is
/// generated for such a field.
pub fn is_skip_interactive_input(field: &Field) -> (res: bool)
    ensures
        res == any_group_passes(
            ic_tokens(*field),
            Probe::Either("skip_interactive_input", "long_vec_multiple_opt"),
        ),
{
    any_group(
        &field.attrs,
        Some("interactive_clap"),
        &Probe::Either("skip_interactive_input", "long_vec_multiple_opt"),
    )
}

/// Whether no group of any of the field's attributes mentions `named_arg` or `subcommand`.
pub fn is_field_without_subcommand(field: &Field) -> (res: bool)
    ensures
        res == !any_group_passes(all_tokens(*field), Probe::Either("named_arg", "subcommand")),
{
    if field.attrs.len() == 0 {
        return true;
    }
    !any_group(&field.attrs, None, &Probe::Either("named_arg", "subcommand"))
}

/// Whether no group of the field's `interactive_clap` attributes mentions
/// `skip_default_from_cli`.
pub fn is_field_without_skip_default_from_cli(field: &Field) -> (res: bool)
    ensures
        res == !any_group_passes(ic_tokens(*field), Probe::Contains("skip_default_from_cli")),
{
    if field.attrs.len() == 0 {
        return true;
    }
    !any_group(&field.attrs, Some("interactive_clap"), &Probe::Contains("skip_default_from_cli"))
}

/// The field's name when a group of its `interactive_clap` attributes mentions
/// `skip_default_from_cli`; the search refuses a token that is not a group met before.
pub open spec fn skip_default_from_cli_spec(f: Field) -> Result<Option<Seq<char>>, DeriveError> {
    if f.attrs@.len() == 0 {
        Ok(None)
    } else {
        match scan_groups(ic_tokens(f), Probe::Contains("skip_default_from_cli")) {
            Err(_) => Err(DeriveError::OnlyGroupTokens),
            Ok(true) => Ok(Some(f.ident->0@)),
            Ok(false) => Ok(None),
        }
    }
}

/// The field's name when it carries `skip_default_from_cli`, `None` when it does not.
pub fn field_with_skip_default_from_cli(field: &Field) -> (res: Result<Option<String>, DeriveError>)
    requires
        field.ident is Some,
    ensures
        skip_default_from_cli_spec(*field) == match res {
            Ok(Some(s)) => Ok(Some(s@)),
            Ok(None) => Ok(None),
            Err(e) => Err(e),
        },
{
    if field.attrs.len() == 0 {
        return Ok(None);
    }
    match scan(&field.attrs, Some("interactive_clap"), &Probe::Contains("skip_default_from_cli")) {
        Err(_) => Err(DeriveError::OnlyGroupTokens),
        Ok(true) => match &field.ident {
            Some(id) => Ok(Some(crate::text::copy_str(id.as_str()))),
            None => Ok(None),
        },
        Ok(false) => Ok(None),
    }
}

} // verus!

verus! {

/// The doc comments among the attributes, each printed whole, in order.
pub open spec fn doc_texts(attrs: Seq<crate::model::Attr>) -> Seq<Seq<char>>
    decreases attrs.len(),
{
    if attrs.len() == 0 {
        seq![]
    } else {
        doc_texts(attrs.drop_last()) + if crate::model::path_is(attrs.last(), "doc"@) {
            seq![attrs.last().text@]
        } else {
            seq![]
        }
    }
}

/// The first literal among the tokens, printed.
pub open spec fn first_literal(ts: Seq<crate::model::AttrToken>) -> Option<Seq<char>>
    decreases ts.len(),
{
    if ts.len() == 0 {
        None
    } else if ts[0].kind == crate::model::TokenKind::Literal {
        Some(ts[0].text@)
    } else {
        first_literal(ts.drop_first())
    }
}

/// The string literal of each doc comment (the first literal of its tokens), in order; a
/// doc attribute without a literal gives nothing.
pub open spec fn doc_literals(attrs: Seq<crate::model::Attr>) -> Seq<Seq<char>>
    decreases attrs.len(),
{
    if attrs.len() == 0 {
        seq![]
    } else {
        doc_literals(attrs.drop_last()) + if crate::model::path_is(attrs.last(), "doc"@) {
            match first_literal(attrs.last().tokens@) {
                Some(l) => seq![l],
                None => seq![],
            }
        } else {
            seq![]
        }
    }
}

proof fn lemma_views_push(s: Seq<String>, x: String)
    ensures
        crate::context::strings_view(s.push(x)) == crate::context::strings_view(s).push(x@),
{
    assert(crate::context::strings_view(s.push(x)) =~= crate::context::strings_view(s).push(x@));
}

/// The doc comments among the attributes, each printed whole.
pub fn doc_attr_texts(attrs: &Vec<crate::model::Attr>) -> (res: Vec<String>)
    ensures
        crate::context::strings_view(res@) == doc_texts(attrs@),
{
    let mut out: Vec<String> = Vec::new();
    let mut i: usize = 0;
    assert(crate::context::strings_view(out@) =~= Seq::<Seq<char>>::empty());
    while i < attrs.len()
        invariant
            i <= attrs.len(),
            crate::context::strings_view(out@) == doc_texts(attrs@.take(i as int)),
        decreases attrs.len() - i,
    {
        assert(attrs@.take(i + 1).drop_last() =~= attrs@.take(i as int));
        let ghost before = out@;
        if crate::model::attr_path_is(&attrs[i], "doc") {
            let c = crate::text::copy_str(attrs[i].text.as_str());
            proof {
                lemma_views_push(out@, c);
            }
            out.push(c);
        } else {
            assert(doc_texts(attrs@.take(i as int)) + Seq::<Seq<char>>::empty() =~= doc_texts(
                attrs@.take(i as int),
            ));
        }
        i = i + 1;
    }
    assert(attrs@.take(attrs.len() as int) =~= attrs@);
    out
}

fn first_literal_of(ts: &Vec<crate::model::AttrToken>) -> (res: Option<String>)
    ensures
        match res {
            Some(s) => first_literal(ts@) == Some(s@),
            None => first_literal(ts@) is None,
        },
{
    let mut j: usize = 0;
    assert(ts@.skip(0) =~= ts@);
    while j < ts.len()
        invariant
            j <= ts@.len(),
            first_literal(ts@) == first_literal(ts@.skip(j as int)),
        decreases ts@.len() - j,
    {
        assert(ts@.skip(j as int)[0] == ts@[j as int]);
        assert(ts@.skip(j as int).drop_first() =~= ts@.skip(j + 1));
        if ts[j].kind == crate::model::TokenKind::Literal {
            return Some(crate::text::copy_str(ts[j].text.as_str()));
        }
        j = j + 1;
    }
    None
}

/// The string literal of each doc comment, in order.
pub fn doc_attr_literals(attrs: &Vec<crate::model::Attr>) -> (res: Vec<String>)
    ensures
        crate::context::strings_view(res@) == doc_literals(attrs@),
{
    let mut out: Vec<String> = Vec::new();
    let mut i: usize = 0;
    assert(crate::context::strings_view(out@) =~= Seq::<Seq<char>>::empty());
    while i < attrs.len()
        invariant
            i <= attrs.len(),
            crate::context::strings_view(out@) == doc_literals(attrs@.take(i as int)),
        decreases attrs.len() - i,
    {
        assert(attrs@.take(i + 1).drop_last() =~= attrs@.take(i as int));
        let mut pushed = false;
        if crate::model::attr_path_is(&attrs[i], "doc") {
            match first_literal_of(&attrs[i].tokens) {
                Some(c) => {
                    proof {
                        lemma_views_push(out@, c);
                    }
                    out.push(c);
                    pushed = true;
                },
                None => {},
            }
        }
        if !pushed {
            assert(doc_literals(attrs@.take(i as int)) + Seq::<Seq<char>>::empty() =~= doc_literals(
                attrs@.take(i as int),
            ));
        }
        i = i + 1;
    }
    assert(attrs@.take(attrs.len() as int) =~= attrs@);
    out
}

} // verus!

verus! {

/// Whether a group of any of the field's attributes mentions `named_arg` or `subcommand`:
/// the field holds a subcommand.
pub fn is_field_with_subcommand(field: &Field) -> (res: bool)
    ensures
        res == any_group_passes(all_tokens(*field), Probe::Either("named_arg", "subcommand")),
{
    !is_field_without_subcommand(field)
}

} // verus!
