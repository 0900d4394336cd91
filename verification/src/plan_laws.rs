//! How single attributes and types decide a field's part in the generated code, stated for
//! every field that carries them.

use vstd::prelude::*;
use crate::model::{Attr, AttrToken, Field, Token, TokenKind, path_is};
use crate::cli_args::{ArgsChoice, CliArgsView, CliFieldView, all_doc, cli_field_spec, fold_clap_tokens,
    fold_items, pick};
use crate::tokens::{Probe, any_group_passes, any_text_passes, tokens_of};
use crate::field_attrs::{all_tokens, ic_tokens};
use crate::structs::from_cli_trait::{FieldValueView, field_value_spec};
use crate::text::seq_starts_with;
use crate::case::kebab;

verus! {

/// An item inside `#[clap(...)]` that names no argument of its own: neither `subcommand`,
/// `long` nor `value_enum`, nor a literal.
pub open spec fn unnaming_item(t: Token) -> bool {
    &&& t.kind != TokenKind::Literal
    &&& !(t.kind == TokenKind::Ident && (t.text@ == "subcommand"@ || t.text@ == "long"@
        || t.text@ == "value_enum"@))
}

/// A group of `#[clap(...)]` whose items all name no argument of their own.
pub open spec fn unnaming_group(t: AttrToken) -> bool {
    &&& t.kind == TokenKind::Group
    &&& forall|j: int| 0 <= j < t.items@.len() ==> unnaming_item(#[trigger] t.items@[j])
}

/// Some item is the identifier `flatten`.
pub open spec fn has_flatten(items: Seq<Token>) -> bool {
    exists|j: int| 0 <= j < items.len() && (#[trigger] items[j]).kind == TokenKind::Ident
        && items[j].text@ == "flatten"@
}

proof fn lemma_tokens_of_nonempty(attrs: Seq<Attr>, p: Seq<char>)
    requires
        tokens_of(attrs, Some(p)).len() > 0,
    ensures
        exists|k: int| 0 <= k < attrs.len() && path_is(#[trigger] attrs[k], p),
    decreases attrs.len(),
{
    if attrs.len() > 0 {
        let init = attrs.drop_last();
        if path_is(attrs.last(), p) {
            assert(path_is(attrs[attrs.len() - 1], p));
        } else {
            assert(tokens_of(attrs, Some(p)) =~= tokens_of(init, Some(p)));
            lemma_tokens_of_nonempty(init, p);
            let k = choose|k: int| 0 <= k < init.len() && path_is(#[trigger] init[k], p);
            assert(init[k] == attrs[k]);
        }
    }
}

proof fn lemma_fold_items_unnaming(items: Seq<Token>, st: ArgsChoice, f: Seq<char>, is_bool: bool, is_vec: bool)
    requires
        forall|j: int| 0 <= j < items.len() ==> unnaming_item(#[trigger] items[j]),
        st.named is Nothing,
        st.unnamed is Nothing,
    ensures
        fold_items(items, st, f, is_bool, is_vec) matches Some(s) && s.named is Nothing
            && s.unnamed is Nothing && ((st.plain == CliArgsView::Flattened(f) || has_flatten(items))
            ==> s.plain == CliArgsView::Flattened(f)),
    decreases items.len(),
{
    if items.len() > 0 {
        let t = items[0];
        assert(unnaming_item(t));
        let plain = if t.kind == TokenKind::Ident && t.text@ == "flatten"@ {
            CliArgsView::Flattened(f)
        } else {
            st.plain
        };
        let next = ArgsChoice { plain, ..st };
        assert(crate::cli_args::step_item(st, t, f, is_bool, is_vec) == Some(next));
        let r = items.drop_first();
        assert forall|j: int| 0 <= j < r.len() implies unnaming_item(#[trigger] r[j]) by {
            assert(r[j] == items[j + 1]);
        }
        lemma_fold_items_unnaming(r, next, f, is_bool, is_vec);
        if has_flatten(items) && !(t.kind == TokenKind::Ident && t.text@ == "flatten"@) {
            let j = choose|j: int| 0 <= j < items.len() && (#[trigger] items[j]).kind == TokenKind::Ident
                && items[j].text@ == "flatten"@;
            assert(j > 0);
            assert(r[j - 1] == items[j]);
            assert(has_flatten(r));
        }
    }
}

proof fn lemma_fold_groups_unnaming(ts: Seq<AttrToken>, st: ArgsChoice, f: Seq<char>, is_bool: bool, is_vec: bool)
    requires
        forall|i: int| 0 <= i < ts.len() ==> unnaming_group(#[trigger] ts[i]),
        st.named is Nothing,
        st.unnamed is Nothing,
    ensures
        fold_clap_tokens(ts, st, f, is_bool, is_vec) matches Ok(Some(s)) && s.named is Nothing
            && s.unnamed is Nothing && ((st.plain == CliArgsView::Flattened(f) || exists|i: int|
            0 <= i < ts.len() && has_flatten((#[trigger] ts[i]).items@)) ==> s.plain
            == CliArgsView::Flattened(f)),
    decreases ts.len(),
{
    if ts.len() > 0 {
        let t = ts[0];
        assert(unnaming_group(t));
        lemma_fold_items_unnaming(t.items@, st, f, is_bool, is_vec);
        let next = fold_items(t.items@, st, f, is_bool, is_vec)->0;
        let r = ts.drop_first();
        assert forall|i: int| 0 <= i < r.len() implies unnaming_group(#[trigger] r[i]) by {
            assert(r[i] == ts[i + 1]);
        }
        lemma_fold_groups_unnaming(r, next, f, is_bool, is_vec);
        if exists|i: int| 0 <= i < ts.len() && has_flatten((#[trigger] ts[i]).items@) {
            let i = choose|i: int| 0 <= i < ts.len() && has_flatten((#[trigger] ts[i]).items@);
            if i > 0 {
                assert(r[i - 1] == ts[i]);
            }
        }
    }
}

/// A field whose `#[clap(...)]` attributes hold `flatten` and nothing that names an
/// argument of its own (no `long`, `value_enum`, literal or `subcommand`) is written back
/// as its own arguments appended to the list (`Flattened`), never as nothing.
pub proof fn law_flatten_field_is_appended(field: Field)
    requires
        field.ident is Some,
        forall|i: int| 0 <= i < tokens_of(field.attrs@, Some("clap"@)).len() ==> unnaming_group(
            #[trigger] tokens_of(field.attrs@, Some("clap"@))[i],
        ),
        exists|i: int| 0 <= i < tokens_of(field.attrs@, Some("clap"@)).len() && has_flatten(
            (#[trigger] tokens_of(field.attrs@, Some("clap"@))[i]).items@,
        ),
    ensures
        cli_field_spec(field) == Ok::<CliFieldView, crate::error::DeriveError>(
            CliFieldView::RegularField(CliArgsView::Flattened(field.ident->0@)),
        ),
        !(cli_field_spec(field) matches Ok(CliFieldView::RegularField(CliArgsView::Nothing))),
{
    let ts = tokens_of(field.attrs@, Some("clap"@));
    let f = field.ident->0@;
    lemma_tokens_of_nonempty(field.attrs@, "clap"@);
    let k = choose|k: int| 0 <= k < field.attrs@.len() && path_is(#[trigger] field.attrs@[k], "clap"@);
    assert("clap"@ != "doc"@) by {
        reveal_strlit("clap");
        reveal_strlit("doc");
        assert("clap"@.len() == 4);
        assert("doc"@.len() == 3);
    }
    assert(!path_is(field.attrs@[k], "doc"@));
    assert(!all_doc(field.attrs@));
    let init = ArgsChoice {
        plain: CliArgsView::Nothing,
        unnamed: CliArgsView::Nothing,
        named: CliArgsView::Nothing,
    };
    lemma_fold_groups_unnaming(ts, init, f, field.ty.text@ == "bool"@,
        crate::model::starts_with_vec_spec(field.ty));
}

/// The item `subcommand`, which decides a field at once.
pub open spec fn is_subcommand_item(t: Token) -> bool {
    t.kind == TokenKind::Ident && t.text@ == "subcommand"@
}

/// Some item is a literal (the name of an option).
pub open spec fn has_literal(items: Seq<Token>) -> bool {
    exists|j: int| 0 <= j < items.len() && (#[trigger] items[j]).kind == TokenKind::Literal
}

/// Some item is the identifier `long`.
pub open spec fn has_long(items: Seq<Token>) -> bool {
    exists|j: int| 0 <= j < items.len() && (#[trigger] items[j]).kind == TokenKind::Ident
        && items[j].text@ == "long"@
}

/// What a `long` field writes back: a flag for a `bool`, the option once for each value of
/// a `Vec`, and the option once otherwise, all under the field's kebab-case name.
pub open spec fn long_form(f: Seq<char>, is_bool: bool, is_vec: bool) -> CliArgsView {
    if is_bool {
        CliArgsView::Flag(f, kebab(f))
    } else if is_vec {
        CliArgsView::RepeatedOption(f, kebab(f))
    } else {
        CliArgsView::LongOption(f, kebab(f))
    }
}

/// The candidate set by a literal is an option of the field named by some literal.
pub open spec fn named_by_literal(a: CliArgsView, f: Seq<char>) -> bool {
    a matches CliArgsView::NamedOption(g, _) && g == f
}

proof fn lemma_fold_items_named(items: Seq<Token>, st: ArgsChoice, f: Seq<char>, is_bool: bool, is_vec: bool)
    requires
        forall|j: int| 0 <= j < items.len() ==> !is_subcommand_item(#[trigger] items[j]),
    ensures
        fold_items(items, st, f, is_bool, is_vec) matches Some(s) && ((has_literal(items)
            || named_by_literal(st.named, f)) ==> named_by_literal(s.named, f)) && (!has_literal(items)
            ==> s.named == st.named) && ((has_long(items) || st.unnamed == long_form(f, is_bool, is_vec))
            ==> s.unnamed == long_form(f, is_bool, is_vec)) && (!has_long(items) ==> s.unnamed
            == st.unnamed),
    decreases items.len(),
{
    if items.len() > 0 {
        let t = items[0];
        assert(!is_subcommand_item(t));
        let next = crate::cli_args::step_item(st, t, f, is_bool, is_vec)->0;
        assert("long"@ != "subcommand"@ && "long"@ != "value_enum"@ && "long"@ != "flatten"@) by {
            reveal_strlit("long");
            reveal_strlit("subcommand");
            reveal_strlit("value_enum");
            reveal_strlit("flatten");
            assert("long"@.len() == 4);
            assert("subcommand"@.len() == 10);
            assert("value_enum"@.len() == 10);
            assert("flatten"@.len() == 7);
        }
        assert(t.kind == TokenKind::Literal ==> named_by_literal(next.named, f));
        assert(t.kind != TokenKind::Literal ==> next.named == st.named);
        assert(t.kind == TokenKind::Ident && t.text@ == "long"@ ==> next.unnamed == long_form(f, is_bool, is_vec));
        assert(!(t.kind == TokenKind::Ident && t.text@ == "long"@) ==> next.unnamed == st.unnamed);
        let r = items.drop_first();
        assert forall|j: int| 0 <= j < r.len() implies !is_subcommand_item(#[trigger] r[j]) by {
            assert(r[j] == items[j + 1]);
        }
        lemma_fold_items_named(r, next, f, is_bool, is_vec);
        if has_literal(items) && t.kind != TokenKind::Literal {
            let j = choose|j: int| 0 <= j < items.len() && (#[trigger] items[j]).kind == TokenKind::Literal;
            assert(r[j - 1] == items[j]);
            assert(has_literal(r));
        }
        if !has_literal(items) {
            assert forall|j: int| 0 <= j < r.len() implies (#[trigger] r[j]).kind != TokenKind::Literal by {
                assert(r[j] == items[j + 1]);
            }
            assert(items[0].kind != TokenKind::Literal);
        }
        if has_long(items) && !(t.kind == TokenKind::Ident && t.text@ == "long"@) {
            let j = choose|j: int| 0 <= j < items.len() && (#[trigger] items[j]).kind == TokenKind::Ident
                && items[j].text@ == "long"@;
            assert(r[j - 1] == items[j]);
            assert(has_long(r));
        }
        if !has_long(items) {
            assert forall|j: int| 0 <= j < r.len() implies !((#[trigger] r[j]).kind == TokenKind::Ident
                && r[j].text@ == "long"@) by {
                assert(r[j] == items[j + 1]);
            }
            assert(!(items[0].kind == TokenKind::Ident && items[0].text@ == "long"@));
        }
    }
}

/// A group of `#[clap(...)]` without the item `subcommand`.
pub open spec fn group_without_subcommand(t: AttrToken) -> bool {
    &&& t.kind == TokenKind::Group
    &&& forall|j: int| 0 <= j < t.items@.len() ==> !is_subcommand_item(#[trigger] t.items@[j])
}

/// Some group holds a literal.
pub open spec fn any_literal(ts: Seq<AttrToken>) -> bool {
    exists|i: int| 0 <= i < ts.len() && has_literal((#[trigger] ts[i]).items@)
}

/// Some group holds `long`.
pub open spec fn any_long(ts: Seq<AttrToken>) -> bool {
    exists|i: int| 0 <= i < ts.len() && has_long((#[trigger] ts[i]).items@)
}

proof fn lemma_fold_groups_named(ts: Seq<AttrToken>, st: ArgsChoice, f: Seq<char>, is_bool: bool, is_vec: bool)
    requires
        forall|i: int| 0 <= i < ts.len() ==> group_without_subcommand(#[trigger] ts[i]),
    ensures
        fold_clap_tokens(ts, st, f, is_bool, is_vec) matches Ok(Some(s)) && ((any_literal(ts)
            || named_by_literal(st.named, f)) ==> named_by_literal(s.named, f)) && (!any_literal(ts)
            ==> s.named == st.named) && ((any_long(ts) || st.unnamed == long_form(f, is_bool, is_vec))
            ==> s.unnamed == long_form(f, is_bool, is_vec)) && (!any_long(ts) ==> s.unnamed
            == st.unnamed),
    decreases ts.len(),
{
    if ts.len() > 0 {
        let t = ts[0];
        assert(group_without_subcommand(t));
        lemma_fold_items_named(t.items@, st, f, is_bool, is_vec);
        let next = fold_items(t.items@, st, f, is_bool, is_vec)->0;
        let r = ts.drop_first();
        assert forall|i: int| 0 <= i < r.len() implies group_without_subcommand(#[trigger] r[i]) by {
            assert(r[i] == ts[i + 1]);
        }
        lemma_fold_groups_named(r, next, f, is_bool, is_vec);
        if any_literal(ts) && !has_literal(t.items@) {
            let i = choose|i: int| 0 <= i < ts.len() && has_literal((#[trigger] ts[i]).items@);
            assert(r[i - 1] == ts[i]);
            assert(any_literal(r));
        }
        if !any_literal(ts) {
            assert forall|i: int| 0 <= i < r.len() implies !has_literal((#[trigger] r[i]).items@) by {
                assert(r[i] == ts[i + 1]);
            }
            assert(!has_literal(ts[0].items@));
        }
        if any_long(ts) && !has_long(t.items@) {
            let i = choose|i: int| 0 <= i < ts.len() && has_long((#[trigger] ts[i]).items@);
            assert(r[i - 1] == ts[i]);
            assert(any_long(r));
        }
        if !any_long(ts) {
            assert forall|i: int| 0 <= i < r.len() implies !has_long((#[trigger] r[i]).items@) by {
                assert(r[i] == ts[i + 1]);
            }
            assert(!has_long(ts[0].items@));
        }
    }
}

/// Which `#[clap(...)]` item decides how a field is written back, whatever their order: an
/// option named by a literal wins; without a literal, `long` writes a flag (`bool`), a
/// repeated option (`Vec`) or an option under the field's kebab-case name.
pub proof fn law_clap_option_precedence(field: Field)
    requires
        field.ident is Some,
        forall|i: int| 0 <= i < tokens_of(field.attrs@, Some("clap"@)).len() ==> group_without_subcommand(
            #[trigger] tokens_of(field.attrs@, Some("clap"@))[i],
        ),
        any_literal(tokens_of(field.attrs@, Some("clap"@))) || any_long(
            tokens_of(field.attrs@, Some("clap"@)),
        ),
    ensures
        any_literal(tokens_of(field.attrs@, Some("clap"@))) ==> (cli_field_spec(field) matches Ok(
            CliFieldView::RegularField(a),
        ) && named_by_literal(a, field.ident->0@)),
        !any_literal(tokens_of(field.attrs@, Some("clap"@))) ==> cli_field_spec(field) == Ok::<
            CliFieldView,
            crate::error::DeriveError,
        >(
            CliFieldView::RegularField(
                long_form(field.ident->0@, field.ty.text@ == "bool"@, crate::model::starts_with_vec_spec(field.ty)),
            ),
        ),
{
    let ts = tokens_of(field.attrs@, Some("clap"@));
    let f = field.ident->0@;
    assert(ts.len() > 0);
    lemma_tokens_of_nonempty(field.attrs@, "clap"@);
    let k = choose|k: int| 0 <= k < field.attrs@.len() && path_is(#[trigger] field.attrs@[k], "clap"@);
    assert("clap"@ != "doc"@) by {
        reveal_strlit("clap");
        reveal_strlit("doc");
        assert("clap"@.len() == 4);
        assert("doc"@.len() == 3);
    }
    assert(!path_is(field.attrs@[k], "doc"@));
    assert(!all_doc(field.attrs@));
    let init = ArgsChoice {
        plain: CliArgsView::Nothing,
        unnamed: CliArgsView::Nothing,
        named: CliArgsView::Nothing,
    };
    lemma_fold_groups_named(ts, init, f, field.ty.text@ == "bool"@,
        crate::model::starts_with_vec_spec(field.ty));
}

/// A field whose type is an `Option` (its text starts with `Option <`) and that is not
/// marked `skip_interactive_input` or `long_vec_multiple_opt` is prompted for optionally:
/// a prompt left empty keeps `None`. It is never prompted for as a required value.
pub proof fn law_option_field_prompt_is_optional(f: Field)
    requires
        f.ident is Some,
        seq_starts_with(f.ty.text@, "Option <"@),
        !any_group_passes(ic_tokens(f), Probe::Either("skip_interactive_input", "long_vec_multiple_opt")),
    ensures
        field_value_spec(f) == Some(FieldValueView::OptionalPrompt(f.ident->0@)),
        !(field_value_spec(f) matches Some(FieldValueView::RequiredPrompt(_))),
{
    assert(f.ty.text@ != "bool"@) by {
        reveal_strlit("bool");
        reveal_strlit("Option <");
        assert("bool"@.len() == 4);
        assert("Option <"@.len() == 8);
    }
}

/// A `bool` field is copied from what was parsed, never prompted for: a flag that is not
/// given is `false`.
pub proof fn law_bool_field_is_copied(f: Field)
    requires
        f.ident is Some,
        f.ty.text@ == "bool"@,
    ensures
        field_value_spec(f) == Some(FieldValueView::Copied(f.ident->0@)),
{
}

/// A field that is neither a `bool` nor an `Option`, that is not marked
/// `skip_interactive_input` or `long_vec_multiple_opt`, and that is not a `named_arg`,
/// `subcommand` or `subargs` field is prompted for as a required value: leaving the prompt
/// cancels.
pub proof fn law_plain_field_prompt_is_required(f: Field)
    requires
        f.ident is Some,
        f.ty.text@ != "bool"@,
        !seq_starts_with(f.ty.text@, "Option <"@),
        !any_group_passes(ic_tokens(f), Probe::Either("skip_interactive_input", "long_vec_multiple_opt")),
        !any_group_passes(all_tokens(f), Probe::Either("named_arg", "subcommand")),
        !any_text_passes(all_tokens(f), Probe::Contains("subargs")),
    ensures
        field_value_spec(f) == Some(FieldValueView::RequiredPrompt(f.ident->0@)),
{
}

} // verus!
