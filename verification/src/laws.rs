//! Properties that hold across the library's functions, for every input.

use vstd::prelude::*;
use crate::model::{Attr, AttrToken, Field, TokenKind, Ty, first_segment};
use crate::cli_struct::{CfState, CliFieldPlanView, CliFieldTypeView, FieldConversionView, cf_attrs,
    cf_doc_step, cf_group_step, cf_reads, cf_tokens, cli_field_spec, cli_field_type_spec,
    cli_fields_spec, conversions_spec, field_conversion_spec};
use crate::cli_args::all_named;
use crate::structs::to_cli_trait::to_cli_spec;
use crate::model::{DeriveInput, Variant};
use crate::error::Outcome;
use crate::choose_variant::{VariantChoiceView, choices_spec};
use crate::from_cli::{EnumArmView, arms_spec};
use crate::interactive_clap_item::{CliVariantDeclView, cli_variants_spec, enum_items_spec,
    struct_items_spec};
use crate::structs::clap_for_named_arg_enum::first_named_arg_spec;
use crate::structs::from_cli_trait::{FieldValueView, field_value_spec, values_spec};
use crate::from_cli::{first_marked, named_arg_value_spec};
use crate::scope::{in_scope, scope_fields_spec};
use crate::tokens::{group_passes, probe_holds, scan_groups, selects, tokens_of};
use crate::text::seq_contains;
use crate::model::{path_is, starts_with_vec_spec};
use crate::cli_struct::ClapAttrView;
use crate::input_args::{InputVersion, input_arg_spec};
use crate::context::ContextDirView;
use crate::field_attrs::ic_tokens;
use crate::tokens::{Probe, any_group_passes};
use crate::error::DeriveError;
use crate::case::{all_ascii, ascii_lower, ascii_upper, camel, camel_ok, camel_piece, camel_prefix,
    is_ascii_char, is_upper, kebab, kebab_char, kebab_piece, kebab_prefix, lowercase, starts_piece};

verus! {

/// A character that `to_kebab_case` may write: neither `_` nor an ASCII uppercase letter.
pub open spec fn kebab_safe(c: char) -> bool {
    c != '_' && !('A' <= c && c <= 'Z')
}

proof fn lemma_kebab_char_safe(c: char)
    ensures
        kebab_safe(kebab_char(c)),
{
    if 'A' <= c && c <= 'Z' {
        assert(97 <= (c as int) + 32 <= 122);
    }
}

proof fn lemma_kebab_prefix_safe(s: Seq<char>, n: nat)
    requires
        n <= s.len(),
    ensures
        forall|i: int| 0 <= i < kebab_prefix(s, n).len() ==> kebab_safe(#[trigger] kebab_prefix(s, n)[i]),
    decreases n,
{
    if n > 0 {
        lemma_kebab_prefix_safe(s, (n - 1) as nat);
        lemma_kebab_char_safe(s[n - 1]);
        let a = kebab_prefix(s, (n - 1) as nat);
        let b = kebab_piece(s, n - 1);
        assert(kebab_prefix(s, n) == a + b);
        assert forall|i: int| 0 <= i < (a + b).len() implies kebab_safe(#[trigger] (a + b)[i]) by {
            if i >= a.len() {
                assert((a + b)[i] == b[i - a.len()]);
            }
        }
    }
}

/// `to_kebab_case` never writes `_` nor an ASCII uppercase letter, whatever its input.
pub proof fn law_kebab_case_is_lower_kebab(s: Seq<char>)
    ensures
        forall|i: int| 0 <= i < kebab(s).len() ==> kebab_safe(#[trigger] kebab(s)[i]),
{
    lemma_kebab_prefix_safe(s, s.len());
}

/// `kebab_prefix` reads no character at or beyond `n`.
proof fn lemma_kebab_prefix_local(x: Seq<char>, y: Seq<char>, n: nat)
    requires
        n <= x.len(),
        n <= y.len(),
        x.take(n as int) == y.take(n as int),
    ensures
        kebab_prefix(x, n) == kebab_prefix(y, n),
    decreases n,
{
    if n > 0 {
        assert(x[n - 1] == x.take(n as int)[n - 1]);
        assert(y[n - 1] == y.take(n as int)[n - 1]);
        assert(x.take(n - 1) =~= x.take(n as int).take(n - 1));
        assert(y.take(n - 1) =~= y.take(n as int).take(n - 1));
        lemma_kebab_prefix_local(x, y, (n - 1) as nat);
    }
}

/// The kebab-case form of `x` followed by one character: that of `x`, then what is written
/// for the character at the end.
proof fn lemma_kebab_push(x: Seq<char>, c: char)
    ensures
        kebab(x.push(c)) == kebab(x) + kebab_piece(x.push(c), x.len() as int),
{
    let y = x.push(c);
    assert(y.take(x.len() as int) =~= x.take(x.len() as int));
    lemma_kebab_prefix_local(y, x, x.len());
}

/// An ASCII string in which no character is an ASCII uppercase letter.
pub open spec fn ascii_lower_only(l: Seq<char>) -> bool {
    &&& all_ascii(l)
    &&& forall|i: int| 0 <= i < l.len() ==> !('A' <= #[trigger] l[i] && l[i] <= 'Z')
}

/// Every `_`-separated piece of `l` but the first begins with a lowercase ASCII letter.
pub open spec fn pieces_start_with_letters(l: Seq<char>) -> bool {
    forall|i: int| 0 < i < l.len() && #[trigger] starts_piece(l, i) ==> 'a' <= l[i] && l[i] <= 'z'
}

/// What the kebab-case form of `l`'s first `n` characters has beyond that of their
/// CamelCase form: the `-` written for a `_` that ends them.
pub open spec fn pending_dash(l: Seq<char>, n: nat) -> Seq<char> {
    if n > 0 && l[n - 1] == '_' {
        seq!['-']
    } else {
        seq![]
    }
}

proof fn lemma_camel_prefix_nonempty(l: Seq<char>, n: nat)
    requires
        0 < n <= l.len(),
        l[0] != '_',
    ensures
        camel_prefix(l, n).len() > 0,
    decreases n,
{
    if n > 1 {
        lemma_camel_prefix_nonempty(l, (n - 1) as nat);
    }
}

proof fn lemma_kebab_of_camel_prefix(l: Seq<char>, n: nat)
    requires
        n <= l.len(),
        ascii_lower_only(l),
        camel_ok(l),
        pieces_start_with_letters(l),
    ensures
        kebab(camel_prefix(l, n)) + pending_dash(l, n) == kebab_prefix(l, n),
    decreases n,
{
    if n == 0 {
        assert(kebab(camel_prefix(l, 0)) =~= Seq::<char>::empty());
    } else {
        let m = (n - 1) as nat;
        lemma_kebab_of_camel_prefix(l, m);
        let cm = camel_prefix(l, m);
        let c = l[m as int];
        assert(is_ascii_char(c));
        assert(!('A' <= c && c <= 'Z'));
        assert(camel_prefix(l, n) == cm + camel_piece(l, m as int));
        assert(kebab_prefix(l, n) == kebab_prefix(l, m) + kebab_piece(l, m as int));
        assert(!is_upper(c));
        if c == '_' {
            assert(camel_piece(l, m as int) =~= Seq::<char>::empty());
            assert(cm + camel_piece(l, m as int) =~= cm);
            assert(starts_piece(l, 0));
            assert(m > 0);
            if l[m - 1] == '_' {
                assert(starts_piece(l, m as int));
            }
            assert(kebab_piece(l, m as int) =~= seq!['-']);
            assert(pending_dash(l, m) =~= Seq::<char>::empty());
        } else if starts_piece(l, m as int) {
            let u = ascii_upper(c);
            assert(camel_piece(l, m as int) =~= seq![u]);
            assert(cm + seq![u] =~= cm.push(u));
            lemma_kebab_push(cm, u);
            if m == 0 {
                assert(cm =~= Seq::<char>::empty());
                assert(kebab(cm) =~= Seq::<char>::empty());
                assert(pending_dash(l, m) =~= Seq::<char>::empty());
                if 'a' <= c && c <= 'z' {
                    assert(65 <= (c as int) - 32 <= 90);
                    assert(ascii_lower(u) == c);
                }
                assert(kebab_char(u) == c);
                assert(kebab_piece(cm.push(u), 0) =~= seq![c]);
                assert(kebab_piece(l, 0) =~= seq![c]);
            } else {
                assert('a' <= c && c <= 'z');
                assert(65 <= (c as int) - 32 <= 90);
                assert(is_upper(u));
                assert(ascii_lower(u) == c);
                assert(starts_piece(l, 0));
                lemma_camel_prefix_nonempty(l, m);
                assert(l[m - 1] == '_');
                assert(kebab_piece(cm.push(u), cm.len() as int) =~= seq!['-', c]);
                assert(kebab_piece(l, m as int) =~= seq![c]);
                assert(pending_dash(l, m) =~= seq!['-']);
            }
            assert(pending_dash(l, n) =~= Seq::<char>::empty());
        } else {
            assert(camel_piece(l, m as int) =~= seq![c]);
            assert(cm + seq![c] =~= cm.push(c));
            lemma_kebab_push(cm, c);
            assert(l[m - 1] != '_');
            assert(pending_dash(l, m) =~= Seq::<char>::empty());
            assert(kebab_piece(cm.push(c), cm.len() as int) =~= seq![c]);
            assert(kebab_piece(l, m as int) =~= seq![c]);
            assert(pending_dash(l, n) =~= Seq::<char>::empty());
        }
    }
}

/// The kebab-case form of the CamelCase form of an ASCII `snake_case` name is the kebab-case
/// form of the name: a `named_arg` field and the variant of its helper enum, which is named
/// in CamelCase after the field, are written on the command line under the same name.
/// The name must be ASCII, and each `_`-separated piece but the first must begin with a
/// letter.
pub proof fn law_kebab_of_camel_case(s: Seq<char>)
    requires
        all_ascii(s),
        camel_ok(lowercase(s)),
        pieces_start_with_letters(lowercase(s)),
    ensures
        kebab(camel(lowercase(s))) == kebab(lowercase(s)),
{
    let l = lowercase(s);
    assert(l == s.map_values(|c: char| ascii_lower(c)));
    assert forall|i: int| 0 <= i < l.len() implies is_ascii_char(#[trigger] l[i]) && !('A' <= l[i]
        && l[i] <= 'Z') by {
        let c = s[i];
        assert(is_ascii_char(c));
        if 'A' <= c && c <= 'Z' {
            assert(97 <= (c as int) + 32 <= 122);
        }
    }
    lemma_kebab_of_camel_prefix(l, l.len());
    assert(pending_dash(l, l.len()) =~= Seq::<char>::empty());
    assert(kebab(camel(l)) + Seq::<char>::empty() =~= kebab(camel(l)));
}

/// Whether the `Cli...` type of a field of type `ty` puts an `Option` around a type that
/// is not one already.
pub open spec fn adds_option(ty: Ty) -> bool {
    &&& cli_field_type_spec(ty) matches Ok(CliFieldTypeView::OptionOf(_))
    &&& !(first_segment(ty) matches Some(s) && s.ident@ == "Option"@)
}

/// In `impl From<Name> for Cli<Name>`, a field that is not skipped and not marked
/// `long_vec_multiple_opt` is wrapped in `Some` exactly when its type in `Cli<Name>` puts an
/// `Option` around it, and the conversion refuses a type exactly when the `Cli...` type
/// does, for the same reason: the conversion has the type of the field it fills.
pub proof fn law_conversion_fits_cli_type(f: Field, skip: Seq<Seq<char>>)
    requires
        f.ident is Some,
        !skip.contains(f.ident->0@),
        !any_group_passes(ic_tokens(f), Probe::Equals("long_vec_multiple_opt")),
    ensures
        match field_conversion_spec(f, skip) {
            Err(e) => cli_field_type_spec(f.ty) == Err::<CliFieldTypeView, DeriveError>(e),
            Ok(c) => cli_field_type_spec(f.ty) is Ok && ((c is SomeInto) <==> adds_option(f.ty)),
        },
{
}

/// A group that is exactly `skip`.
pub open spec fn is_skip(t: AttrToken) -> bool {
    t.kind == TokenKind::Group && t.stream@ == "skip"@
}

/// A group that gives a field its place in `Cli<Name>` again: exactly `named_arg` or
/// `long_vec_multiple_opt`.
pub open spec fn revives(t: AttrToken) -> bool {
    t.kind == TokenKind::Group && (t.stream@ == "named_arg"@ || t.stream@ == "long_vec_multiple_opt"@)
}

/// The tokens of the attributes that are read for a field of `Cli<Name>` (`interactive_clap`
/// and `cfg`), in order.
pub open spec fn read_tokens(attrs: Seq<Attr>) -> Seq<AttrToken>
    decreases attrs.len(),
{
    if attrs.len() == 0 {
        seq![]
    } else {
        (if cf_reads(attrs[0]) {
            attrs[0].tokens@
        } else {
            seq![]
        }) + read_tokens(attrs.drop_first())
    }
}

/// No `skip` group is followed by a group that gives the field its place again.
pub open spec fn no_revival_after_skip(ts: Seq<AttrToken>) -> bool {
    forall|i: int, j: int| 0 <= i < j < ts.len() && #[trigger] is_skip(ts[i]) ==> !#[trigger] revives(ts[j])
}

/// No group gives the field its place again.
pub open spec fn no_revival(ts: Seq<AttrToken>) -> bool {
    forall|j: int| 0 <= j < ts.len() ==> !#[trigger] revives(ts[j])
}

/// Some group is `skip`.
pub open spec fn has_skip(ts: Seq<AttrToken>) -> bool {
    exists|i: int| 0 <= i < ts.len() && #[trigger] is_skip(ts[i])
}

/// Whether the field is skipped, as its attributes say.
pub open spec fn skipped(f: Field) -> bool {
    has_skip(read_tokens(f.attrs@))
}

/// What is read of a field so far agrees with itself: it has no declaration exactly when a
/// skip mark was left, and every skip mark names the field.
pub open spec fn skip_agrees(st: CfState, id: Seq<char>) -> bool {
    &&& (st.decl is None <==> st.skip.len() > 0)
    &&& forall|k: int| 0 <= k < st.skip.len() ==> #[trigger] st.skip[k] == id
}

proof fn lemma_group_step_agrees(st: CfState, t: AttrToken, a: Attr, f: Field, name: Seq<char>)
    requires
        f.ident is Some,
        t.kind == TokenKind::Group,
        skip_agrees(st, f.ident->0@),
        st.skip.len() > 0 ==> !revives(t),
    ensures
        cf_group_step(st, t.stream@, a, f, name, true) matches Ok(s2) ==> skip_agrees(s2, f.ident->0@)
            && (s2.skip.len() > 0 <==> (st.skip.len() > 0 || is_skip(t))),
{
    let gs = t.stream@;
    if let Ok(s2) = cf_group_step(st, gs, a, f, name, true) {
        reveal_strlit("skip");
        reveal_strlit("named_arg");
        reveal_strlit("long_vec_multiple_opt");
        if gs == "skip"@ {
            assert forall|k: int| 0 <= k < s2.skip.len() implies #[trigger] s2.skip[k] == f.ident->0@ by {
                if k < st.skip.len() {
                    assert(s2.skip[k] == st.skip[k]);
                }
            }
        } else {
            assert(s2.skip == st.skip);
        }
    }
}

proof fn lemma_tokens_agree(ts: Seq<AttrToken>, st: CfState, a: Attr, f: Field, name: Seq<char>)
    requires
        f.ident is Some,
        skip_agrees(st, f.ident->0@),
        no_revival_after_skip(ts),
        st.skip.len() > 0 ==> no_revival(ts),
    ensures
        cf_tokens(ts, st, a, f, name, true) matches Ok(s2) ==> skip_agrees(s2, f.ident->0@) && (
        s2.skip.len() > 0 <==> (st.skip.len() > 0 || has_skip(ts))),
    decreases ts.len(),
{
    if ts.len() > 0 && ts[0].kind == TokenKind::Group {
        assert(st.skip.len() > 0 ==> !revives(ts[0]));
        lemma_group_step_agrees(st, ts[0], a, f, name, );
        if let Ok(s1) = cf_group_step(st, ts[0].stream@, a, f, name, true) {
            let rest = ts.drop_first();
            assert forall|i: int, j: int| 0 <= i < j < rest.len() && #[trigger] is_skip(rest[i]) implies !#[trigger] revives(rest[j]) by {
                assert(rest[i] == ts[i + 1]);
                assert(rest[j] == ts[j + 1]);
                assert(is_skip(ts[i + 1]));
            }
            if s1.skip.len() > 0 {
                assert forall|j: int| 0 <= j < rest.len() implies !#[trigger] revives(rest[j]) by {
                    assert(rest[j] == ts[j + 1]);
                    if st.skip.len() > 0 {
                        assert(!revives(ts[j + 1]));
                    } else {
                        assert(is_skip(ts[0]));
                        assert(!revives(ts[j + 1]));
                    }
                }
            }
            lemma_tokens_agree(rest, s1, a, f, name);
            if has_skip(ts) {
                let i = choose|i: int| 0 <= i < ts.len() && #[trigger] is_skip(ts[i]);
                if i > 0 {
                    assert(is_skip(rest[i - 1]));
                }
            }
            if has_skip(rest) {
                let i = choose|i: int| 0 <= i < rest.len() && #[trigger] is_skip(rest[i]);
                assert(is_skip(ts[i + 1]));
            }
        }
    }
}

proof fn lemma_read_tokens_split(attrs: Seq<Attr>)
    requires
        attrs.len() > 0,
    ensures
        read_tokens(attrs) == (if cf_reads(attrs[0]) {
            attrs[0].tokens@
        } else {
            Seq::<AttrToken>::empty()
        }) + read_tokens(attrs.drop_first()),
{
}

proof fn lemma_attrs_agree(attrs: Seq<Attr>, st: CfState, f: Field, name: Seq<char>)
    requires
        f.ident is Some,
        skip_agrees(st, f.ident->0@),
        no_revival_after_skip(read_tokens(attrs)),
        st.skip.len() > 0 ==> no_revival(read_tokens(attrs)),
    ensures
        cf_attrs(attrs, st, f, name, true) matches Ok(s2) ==> skip_agrees(s2, f.ident->0@) && (
        s2.skip.len() > 0 <==> (st.skip.len() > 0 || has_skip(read_tokens(attrs)))),
    decreases attrs.len(),
{
    if attrs.len() > 0 {
        let a = attrs[0];
        let head: Seq<AttrToken> = if cf_reads(a) {
            a.tokens@
        } else {
            seq![]
        };
        let rest = read_tokens(attrs.drop_first());
        let all = read_tokens(attrs);
        lemma_read_tokens_split(attrs);
        assert(all == head + rest);
        assert forall|i: int, j: int| 0 <= i < j < head.len() && #[trigger] is_skip(head[i]) implies !#[trigger] revives(head[j]) by {
            assert(all[i] == head[i]);
            assert(all[j] == head[j]);
            assert(is_skip(all[i]));
        }
        if st.skip.len() > 0 {
            assert forall|j: int| 0 <= j < head.len() implies !#[trigger] revives(head[j]) by {
                assert(all[j] == head[j]);
            }
        }
        let r = if cf_reads(a) {
            cf_tokens(a.tokens@, st, a, f, name, true)
        } else {
            Ok(st)
        };
        if cf_reads(a) {
            lemma_tokens_agree(a.tokens@, st, a, f, name);
        }
        if let Ok(s1) = r {
            assert(s1.skip.len() > 0 <==> (st.skip.len() > 0 || has_skip(head))) by {
                if !cf_reads(a) {
                    assert(!has_skip(head));
                }
            }
            let s1d = cf_doc_step(s1, a, true);
            assert(s1d.decl == s1.decl && s1d.skip == s1.skip);
            assert forall|i: int, j: int| 0 <= i < j < rest.len() && #[trigger] is_skip(rest[i]) implies !#[trigger] revives(rest[j]) by {
                assert(all[i + head.len()] == rest[i]);
                assert(all[j + head.len()] == rest[j]);
                assert(is_skip(all[i + head.len()]));
            }
            if s1d.skip.len() > 0 {
                assert forall|j: int| 0 <= j < rest.len() implies !#[trigger] revives(rest[j]) by {
                    assert(all[j + head.len()] == rest[j]);
                    if st.skip.len() > 0 {
                        assert(!revives(all[j + head.len()]));
                    } else {
                        let i = choose|i: int| 0 <= i < head.len() && #[trigger] is_skip(head[i]);
                        assert(all[i] == head[i]);
                        assert(is_skip(all[i]));
                        assert(!revives(all[j + head.len()]));
                    }
                }
            }
            lemma_attrs_agree(attrs.drop_first(), s1d, f, name);
            if has_skip(all) {
                let i = choose|i: int| 0 <= i < all.len() && #[trigger] is_skip(all[i]);
                if i < head.len() {
                    assert(is_skip(head[i]));
                } else {
                    assert(is_skip(rest[i - head.len()]));
                }
            }
            if has_skip(head) {
                let i = choose|i: int| 0 <= i < head.len() && #[trigger] is_skip(head[i]);
                assert(is_skip(all[i]));
            }
            if has_skip(rest) {
                let i = choose|i: int| 0 <= i < rest.len() && #[trigger] is_skip(rest[i]);
                assert(is_skip(all[i + head.len()]));
            }
        }
    }
}

/// A field of `Cli<Name>` stands for the field exactly when the field is not skipped, and
/// the skip marks the field leaves all name it.
proof fn lemma_field_agrees(f: Field, name: Seq<char>)
    requires
        f.ident is Some,
        no_revival_after_skip(read_tokens(f.attrs@)),
    ensures
        cli_field_spec(f, name, true) matches Ok((p, sk)) ==> ((p is None) <==> skipped(f)) && ((
        sk.len() > 0) <==> skipped(f)) && (forall|k: int| 0 <= k < sk.len() ==> #[trigger] sk[k]
            == f.ident->0@) && (p matches Some(x) ==> x.ident == f.ident->0@),
{
    if let Ok(t) = cli_field_type_spec(f.ty) {
        let init = CfState {
            decl: Some(crate::cli_struct::CliFieldDeclView::Typed(t)),
            cfg: seq![],
            doc: seq![],
            clap: seq![],
            skip: seq![],
        };
        lemma_attrs_agree(f.attrs@, init, f, name);
    }
}

/// The names of the fields that are not skipped, in order.
pub open spec fn kept_idents(fields: Seq<Field>) -> Seq<Seq<char>>
    decreases fields.len(),
{
    if fields.len() == 0 {
        seq![]
    } else if skipped(fields[0]) {
        kept_idents(fields.drop_first())
    } else {
        seq![fields[0].ident->0@] + kept_idents(fields.drop_first())
    }
}

/// The field names of the fields of `Cli<Name>`.
pub open spec fn plan_idents(ps: Seq<CliFieldPlanView>) -> Seq<Seq<char>> {
    ps.map_values(|p: CliFieldPlanView| p.ident)
}

/// The field name that a conversion fills.
pub open spec fn conversion_ident(c: FieldConversionView) -> Seq<char> {
    match c {
        FieldConversionView::Skipped => seq![],
        FieldConversionView::Into(id) => id,
        FieldConversionView::SomeInto(id) => id,
    }
}

/// The field names that the conversions fill.
pub open spec fn conversion_idents(cs: Seq<FieldConversionView>) -> Seq<Seq<char>> {
    cs.map_values(|c: FieldConversionView| conversion_ident(c))
}

/// Every field has a name, no two fields share one, and no field is given its place again
/// after a `skip`.
pub open spec fn well_named(fields: Seq<Field>) -> bool {
    &&& all_named(fields)
    &&& forall|i: int, j: int| 0 <= i < j < fields.len() ==> #[trigger] fields[i].ident->0@
        != #[trigger] fields[j].ident->0@
    &&& forall|i: int| 0 <= i < fields.len() ==> no_revival_after_skip(read_tokens(#[trigger] fields[i].attrs@))
}

proof fn lemma_fields_agree(fields: Seq<Field>, name: Seq<char>)
    requires
        well_named(fields),
    ensures
        cli_fields_spec(fields, name, true) matches Ok((ps, sk)) ==> plan_idents(ps) == kept_idents(
            fields,
        ) && (forall|x: Seq<char>| #[trigger] sk.contains(x) <==> exists|i: int|
            0 <= i < fields.len() && skipped(#[trigger] fields[i]) && fields[i].ident->0@ == x),
    decreases fields.len(),
{
    if fields.len() > 0 {
        let rest = fields.drop_first();
        assert forall|i: int, j: int| 0 <= i < j < rest.len() implies #[trigger] rest[i].ident->0@
            != #[trigger] rest[j].ident->0@ by {
            assert(rest[i] == fields[i + 1]);
            assert(rest[j] == fields[j + 1]);
        }
        assert forall|i: int| 0 <= i < rest.len() implies no_revival_after_skip(read_tokens(#[trigger] rest[i].attrs@)) by {
            assert(rest[i] == fields[i + 1]);
        }
        assert forall|i: int| 0 <= i < rest.len() implies (#[trigger] rest[i]).ident is Some by {
            assert(rest[i] == fields[i + 1]);
        }
        assert(fields[0].ident is Some);
        assert(no_revival_after_skip(read_tokens(fields[0].attrs@)));
        lemma_field_agrees(fields[0], name);
        lemma_fields_agree(rest, name);
        if let Ok((ps, sk)) = cli_fields_spec(fields, name, true) {
            if let Ok((p, sk0)) = cli_field_spec(fields[0], name, true) {
                if let Ok((ps2, sk2)) = cli_fields_spec(rest, name, true) {
                    assert(sk == sk0 + sk2);
                    match p {
                        Some(x) => {
                            assert(ps == seq![x] + ps2);
                            assert(plan_idents(ps) =~= seq![x.ident] + plan_idents(ps2));
                        },
                        None => {
                            assert(ps == ps2);
                        },
                    }
                    assert forall|x: Seq<char>| #[trigger] sk.contains(x) <==> exists|i: int|
                        0 <= i < fields.len() && skipped(#[trigger] fields[i]) && fields[i].ident->0@ == x by {
                        if sk.contains(x) {
                            let k = choose|k: int| 0 <= k < sk.len() && sk[k] == x;
                            if k < sk0.len() {
                                assert(sk0[k] == x);
                                assert(skipped(fields[0]) && fields[0].ident->0@ == x);
                            } else {
                                assert(sk2[k - sk0.len()] == x);
                                assert(sk2.contains(x));
                                let i = choose|i: int| 0 <= i < rest.len() && skipped(#[trigger] rest[i]) && rest[i].ident->0@ == x;
                                assert(rest[i] == fields[i + 1]);
                                assert(skipped(fields[i + 1]));
                            }
                        }
                        if exists|i: int| 0 <= i < fields.len() && skipped(#[trigger] fields[i]) && fields[i].ident->0@ == x {
                            let i = choose|i: int| 0 <= i < fields.len() && skipped(#[trigger] fields[i]) && fields[i].ident->0@ == x;
                            if i == 0 {
                                assert(sk[0] == sk0[0]);
                                assert(sk.contains(x));
                            } else {
                                assert(rest[i - 1] == fields[i]);
                                assert(skipped(rest[i - 1]));
                                assert(sk2.contains(x));
                                let k = choose|k: int| 0 <= k < sk2.len() && sk2[k] == x;
                                assert(sk[k + sk0.len()] == sk2[k]);
                                assert(sk.contains(x));
                            }
                        }
                    }
                }
            }
        }
    }
}

proof fn lemma_conversions_agree(fields: Seq<Field>, skip: Seq<Seq<char>>)
    requires
        all_named(fields),
        forall|i: int| 0 <= i < fields.len() ==> (skip.contains(#[trigger] fields[i].ident->0@)
            <==> skipped(fields[i])),
    ensures
        conversions_spec(fields, skip, true) matches Ok(cs) ==> conversion_idents(cs) == kept_idents(
            fields,
        ),
    decreases fields.len(),
{
    if fields.len() > 0 {
        let rest = fields.drop_first();
        assert forall|i: int| 0 <= i < rest.len() implies (skip.contains(#[trigger] rest[i].ident->0@)
            <==> skipped(rest[i])) by {
            assert(rest[i] == fields[i + 1]);
        }
        assert forall|i: int| 0 <= i < rest.len() implies (#[trigger] rest[i]).ident is Some by {
            assert(rest[i] == fields[i + 1]);
        }
        lemma_conversions_agree(rest, skip);
        assert(fields[0].ident is Some);
        assert(skip.contains(fields[0].ident->0@) <==> skipped(fields[0]));
        if let Ok(cs) = conversions_spec(fields, skip, true) {
            if let Ok(cv) = field_conversion_spec(fields[0], skip) {
                if let Ok(cs2) = conversions_spec(rest, skip, true) {
                    if !(cv is Skipped) {
                        assert(cs == seq![cv] + cs2);
                        assert(conversion_idents(cs) =~= seq![conversion_ident(cv)] + conversion_idents(cs2));
                    }
                }
            }
        }
    }
}

/// `impl From<Name> for Cli<Name>` fills exactly the fields of `Cli<Name>`, in their order:
/// both hold the fields that are not skipped. The fields must have distinct names, and no
/// field may be given its place again by a `named_arg` or `long_vec_multiple_opt` group
/// after a `skip` group (that field would be declared and not filled).
pub proof fn law_from_fills_cli_fields(name: Seq<char>, cli_name: Seq<char>, fields: Seq<Field>)
    requires
        well_named(fields),
    ensures
        to_cli_spec(name, cli_name, fields) matches Ok(p) ==> plan_idents(p.cli_fields)
            == conversion_idents(p.conversions) && plan_idents(p.cli_fields) == kept_idents(fields),
{
    lemma_fields_agree(fields, name);
    if let Ok((ps, sk)) = cli_fields_spec(fields, name, true) {
        assert forall|i: int| 0 <= i < fields.len() implies (sk.contains(#[trigger] fields[i].ident->0@)
            <==> skipped(fields[i])) by {
            if sk.contains(fields[i].ident->0@) {
                let j = choose|j: int| 0 <= j < fields.len() && skipped(#[trigger] fields[j])
                    && fields[j].ident->0@ == fields[i].ident->0@;
                if j != i {
                    if j < i {
                        assert(fields[j].ident->0@ != fields[i].ident->0@);
                    } else {
                        assert(fields[i].ident->0@ != fields[j].ident->0@);
                    }
                }
            }
        }
        lemma_conversions_agree(fields, sk);
    }
}

/// The selection offers the variants of `Cli<Name>`, in their order: the same names, with a
/// value inside exactly where the variant of `Cli<Name>` holds one.
pub open spec fn choices_match(cs: Seq<VariantChoiceView>, ds: Seq<CliVariantDeclView>) -> bool {
    &&& cs.len() == ds.len()
    &&& forall|k: int| 0 <= k < cs.len() ==> (#[trigger] cs[k]).ident == ds[k].ident && (cs[k].has_arg
        <==> ds[k].ty is Some)
}

/// The arms of `from_cli` are the variants of `Cli<Name>`, in their order, with the same
/// names and contents.
pub open spec fn arms_match(arms: Seq<EnumArmView>, ds: Seq<CliVariantDeclView>) -> bool {
    &&& arms.len() == ds.len()
    &&& forall|k: int| 0 <= k < arms.len() ==> (#[trigger] arms[k]).ident == ds[k].ident && arms[k].ty
        == ds[k].ty
}

proof fn lemma_variants_agree(vs: Seq<Variant>)
    ensures
        cli_variants_spec(vs) matches Outcome::Gives(ds) ==> (choices_spec(vs) matches Ok(cs)
            ==> choices_match(cs, ds)) && (arms_spec(vs) matches Outcome::Gives(arms) ==> arms_match(
            arms,
            ds,
        )),
    decreases vs.len(),
{
    if vs.len() > 0 {
        let rest = vs.drop_first();
        lemma_variants_agree(rest);
        if let Outcome::Gives(ds) = cli_variants_spec(vs) {
            if let Outcome::Gives(d) = crate::interactive_clap_item::cli_variant_spec(vs[0]) {
                if let Outcome::Gives(ds2) = cli_variants_spec(rest) {
                    assert(ds == seq![d] + ds2);
                    if let Ok(cs) = choices_spec(vs) {
                        if let Ok(cs2) = choices_spec(rest) {
                            let c = cs[0];
                            assert(cs == seq![c] + cs2);
                            assert forall|k: int| 0 <= k < cs.len() implies (#[trigger] cs[k]).ident
                                == ds[k].ident && (cs[k].has_arg <==> ds[k].ty is Some) by {
                                if k > 0 {
                                    assert(cs[k] == cs2[k - 1]);
                                    assert(ds[k] == ds2[k - 1]);
                                }
                            }
                        }
                    }
                    if let Outcome::Gives(arms) = arms_spec(vs) {
                        if let Outcome::Gives(arms2) = arms_spec(rest) {
                            let a = arms[0];
                            assert(arms == seq![a] + arms2);
                            assert forall|k: int| 0 <= k < arms.len() implies (#[trigger] arms[k]).ident
                                == ds[k].ident && arms[k].ty == ds[k].ty by {
                                if k > 0 {
                                    assert(arms[k] == arms2[k - 1]);
                                    assert(ds[k] == ds2[k - 1]);
                                }
                            }
                        }
                    }
                }
            }
        }
    }
}

/// For an enum, the parts the derive generates agree on the variants: the selection of
/// `choose_variant` offers the variants of `Cli<Name>` in their order, building a variant
/// with a value exactly where `Cli<Name>` has one, and `from_cli` has one arm for each
/// variant of `Cli<Name>`, in order, with the same content.
pub proof fn law_enum_parts_agree(ast: DeriveInput, vs: Seq<Variant>)
    ensures
        enum_items_spec(ast, vs) matches Outcome::Gives(e) ==> (e.choose_variant.select matches Some(
            sel,
        ) ==> choices_match(sel.variants, e.variants)) && (e.from_cli matches Some(fc) ==> arms_match(
            fc.arms,
            e.variants,
        )),
{
    lemma_variants_agree(vs);
}

proof fn lemma_no_attrs_no_tokens(attrs: Seq<Attr>, path: Option<Seq<char>>)
    requires
        attrs.len() == 0,
    ensures
        tokens_of(attrs, path) == Seq::<AttrToken>::empty(),
{
}

/// The helper enum and `from_cli` find the same `named_arg` field: where the search for the
/// helper enum gives an answer, `from_cli`'s search gives the same field, named in the same
/// way.
proof fn lemma_same_named_arg_field(name: Seq<char>, fields: Seq<Field>, p: Probe)
    ensures
        first_named_arg_spec(name, fields, p) matches Outcome::Gives(o) ==> match o {
            None => named_arg_value_spec(fields, name, p) == Outcome::<
                Option<crate::from_cli::NamedArgValueView>,
            >::Gives(None),
            Some(e) => named_arg_value_spec(fields, name, p) matches Outcome::Gives(Some(na))
                && na.enum_name == e.enum_name && na.variant_name == e.variant_name && na.ty == e.ty,
        },
    decreases fields.len(),
{
    if fields.len() > 0 {
        let f = fields[0];
        lemma_same_named_arg_field(name, fields.drop_first(), p);
        if f.attrs@.len() == 0 {
            lemma_no_attrs_no_tokens(f.attrs@, Some("interactive_clap"@));
            assert(crate::field_attrs::ic_tokens(f) == Seq::<AttrToken>::empty());
            assert(scan_groups(crate::field_attrs::ic_tokens(f), p) == Ok::<bool, ()>(false));
        }
    }
}

/// The parts generated for a struct agree on its `named_arg` field: when `from_cli` is
/// generated, it reads a `named_arg` field exactly when the helper enum is generated, and
/// it reads it through that enum's name and variant, with the same type.
pub proof fn law_named_arg_parts_agree(ast: DeriveInput, fields: Seq<Field>)
    ensures
        struct_items_spec(ast, fields) matches Outcome::Gives(s) ==> (s.from_cli matches Some(fc)
            ==> match (fc.named_arg, s.named_arg_enum) {
            (None, None) => true,
            (Some(na), Some(e)) => na.enum_name == e.enum_name && na.variant_name == e.variant_name
                && na.ty == e.ty,
            _ => false,
        }),
{
    lemma_same_named_arg_field(ast.ident@, fields, Probe::Equals("named_arg"));
}

/// The name of the field whose value is read.
pub open spec fn value_ident(v: FieldValueView) -> Seq<char> {
    match v {
        FieldValueView::Copied(f) => f,
        FieldValueView::OptionalPrompt(f) => f,
        FieldValueView::RequiredPrompt(f) => f,
    }
}

/// The names of the fields whose values are read, in order.
pub open spec fn value_idents(vs: Seq<FieldValueView>) -> Seq<Seq<char>> {
    vs.map_values(|v: FieldValueView| value_ident(v))
}

/// Every field of the scope is a field whose value is read.
pub open spec fn all_read(sc: Seq<crate::scope::ScopeFieldView>, vs: Seq<FieldValueView>) -> bool {
    forall|k: int| 0 <= k < sc.len() ==> value_idents(vs).contains((#[trigger] sc[k]).ident)
}

proof fn lemma_scope_fields_have_values(fields: Seq<Field>)
    requires
        all_named(fields),
    ensures
        all_read(scope_fields_spec(fields, true), values_spec(fields)),
    decreases fields.len(),
{
    if fields.len() > 0 {
        let init = fields.drop_last();
        let f = fields.last();
        assert forall|i: int| 0 <= i < init.len() implies (#[trigger] init[i]).ident is Some by {
            assert(init[i] == fields[i]);
        }
        assert(f == fields[fields.len() - 1]);
        lemma_scope_fields_have_values(init);
        let sc0 = scope_fields_spec(init, true);
        let vs0 = values_spec(init);
        let sc = scope_fields_spec(fields, true);
        let vs = values_spec(fields);
        let vf = field_value_spec(f);
        assert(vs == vs0 + match vf {
            Some(v) => seq![v],
            None => Seq::<FieldValueView>::empty(),
        });
        if in_scope(f, true) {
            assert(vf is Some);
        }
        assert forall|k: int| 0 <= k < sc.len() implies value_idents(vs).contains((#[trigger] sc[k]).ident) by {
            if k < sc0.len() {
                assert(sc[k] == sc0[k]);
                assert(value_idents(vs0).contains(sc0[k].ident));
                let j = choose|j: int| 0 <= j < value_idents(vs0).len() && value_idents(vs0)[j] == sc0[k].ident;
                assert(vs[j] == vs0[j]);
                assert(value_idents(vs)[j] == sc[k].ident);
            } else {
                assert(in_scope(f, true));
                let v = vf->0;
                let j = vs0.len() as int;
                assert(vs[j] == v);
                assert(value_idents(vs)[j] == sc[k].ident);
            }
        }
    }
}

/// In `from_cli` of a struct, every field of the new context scope has had its value read
/// before the scope is built.
pub proof fn law_scope_fields_are_read(ast: DeriveInput, fields: Seq<Field>)
    requires
        all_named(fields),
    ensures
        struct_items_spec(ast, fields) matches Outcome::Gives(s) ==> (s.from_cli matches Some(fc)
            ==> all_read(fc.scope_fields, fc.values)),
{
    lemma_scope_fields_have_values(fields);
}

/// The `k`-th attribute of `f` is `#[interactive_clap(..)]` and its `j`-th token is the
/// group `(long_vec_multiple_opt)`.
pub open spec fn marks_long_vec(f: Field, k: int, j: int) -> bool {
    &&& 0 <= k < f.attrs@.len()
    &&& path_is(f.attrs@[k], "interactive_clap"@)
    &&& 0 <= j < f.attrs@[k].tokens@.len()
    &&& f.attrs@[k].tokens@[j].kind == TokenKind::Group
    &&& f.attrs@[k].tokens@[j].stream@ == "long_vec_multiple_opt"@
}

proof fn lemma_token_selected(attrs: Seq<Attr>, path: Seq<char>, k: int, j: int)
    requires
        0 <= k < attrs.len(),
        path_is(attrs[k], path),
        0 <= j < attrs[k].tokens@.len(),
    ensures
        tokens_of(attrs, Some(path)).contains(attrs[k].tokens@[j]),
    decreases attrs.len(),
{
    let init = attrs.drop_last();
    let last: Seq<AttrToken> = if selects(attrs.last(), Some(path)) {
        attrs.last().tokens@
    } else {
        seq![]
    };
    assert(tokens_of(attrs, Some(path)) == tokens_of(init, Some(path)) + last);
    if k == attrs.len() - 1 {
        let q = tokens_of(init, Some(path)).len() + j;
        assert(tokens_of(attrs, Some(path))[q] == attrs[k].tokens@[j]);
    } else {
        assert(init[k] == attrs[k]);
        lemma_token_selected(init, path, k, j);
        let q = choose|q: int| 0 <= q < tokens_of(init, Some(path)).len() && tokens_of(init, Some(path))[q] == attrs[k].tokens@[j];
        assert(tokens_of(attrs, Some(path))[q] == attrs[k].tokens@[j]);
    }
}

proof fn lemma_contains_self(x: Seq<char>)
    ensures
        seq_contains(x, x),
{
    assert(x.subrange(0, 0 + x.len() as int) =~= x);
}

/// What is read of a field keeps the `#[clap(..)]` entries read so far.
pub open spec fn keeps_clap(st: CfState, s2: CfState) -> bool {
    forall|x: ClapAttrView| st.clap.contains(x) ==> #[trigger] s2.clap.contains(x)
}

proof fn lemma_push_keeps(c: Seq<ClapAttrView>, y: ClapAttrView)
    ensures
        forall|x: ClapAttrView| c.contains(x) ==> #[trigger] c.push(y).contains(x),
        c.push(y).contains(y),
{
    assert forall|x: ClapAttrView| c.contains(x) implies #[trigger] c.push(y).contains(x) by {
        let i = choose|i: int| 0 <= i < c.len() && c[i] == x;
        assert(c.push(y)[i] == x);
    }
    assert(c.push(y)[c.len() as int] == y);
}

proof fn lemma_group_step_keeps(st: CfState, gs: Seq<char>, a: Attr, f: Field, name: Seq<char>)
    ensures
        cf_group_step(st, gs, a, f, name, true) matches Ok(s2) ==> keeps_clap(st, s2) && (gs
            == "long_vec_multiple_opt"@ ==> s2.clap.contains(ClapAttrView::Word("long"@))),
{
    if let Ok(s2) = cf_group_step(st, gs, a, f, name, true) {
        let c0 = st.clap;
        lemma_push_keeps(c0, ClapAttrView::Stream(gs));
        lemma_push_keeps(c0, ClapAttrView::Word("subcommand"@));
        lemma_push_keeps(c0, ClapAttrView::Word("flatten"@));
        lemma_push_keeps(c0.push(ClapAttrView::Stream(gs)), ClapAttrView::Word("flatten"@));
        lemma_push_keeps(c0.push(ClapAttrView::Word("subcommand"@)), ClapAttrView::Word("flatten"@));
        if gs == "long_vec_multiple_opt"@ {
            reveal_strlit("long_vec_multiple_opt");
            reveal_strlit("subargs");
            reveal_strlit("skip");
            reveal_strlit("named_arg");
            assert(!seq_contains(gs, "subargs"@)) by {
                if seq_contains(gs, "subargs"@) {
                    let i = choose|i: int| 0 <= i && i + "subargs"@.len() <= gs.len() && #[trigger] gs.subrange(i, i + "subargs"@.len()) == "subargs"@;
                    assert(gs.subrange(i, i + 7)[0] == gs[i]);
                    assert(gs.subrange(i, i + 7)[1] == gs[i + 1]);
                }
            }
            lemma_push_keeps(st.clap, ClapAttrView::Word("long"@));
            assert("long_vec_multiple_opt"@.len() == 21);
            assert("skip"@.len() == 4);
            assert("named_arg"@.len() == 9);
            assert(s2.clap == st.clap.push(ClapAttrView::Word("long"@)));
        }
    }
}

proof fn lemma_tokens_keep(ts: Seq<AttrToken>, st: CfState, a: Attr, f: Field, name: Seq<char>, j: int)
    ensures
        cf_tokens(ts, st, a, f, name, true) matches Ok(s2) ==> keeps_clap(st, s2) && (0 <= j
            < ts.len() && ts[j].kind == TokenKind::Group && ts[j].stream@ == "long_vec_multiple_opt"@
            ==> s2.clap.contains(ClapAttrView::Word("long"@))),
    decreases ts.len(),
{
    if ts.len() > 0 && ts[0].kind == TokenKind::Group {
        lemma_group_step_keeps(st, ts[0].stream@, a, f, name);
        if let Ok(s1) = cf_group_step(st, ts[0].stream@, a, f, name, true) {
            lemma_tokens_keep(ts.drop_first(), s1, a, f, name, j - 1);
            if 0 < j < ts.len() {
                assert(ts.drop_first()[j - 1] == ts[j]);
            }
        }
    }
}

proof fn lemma_attrs_keep(attrs: Seq<Attr>, st: CfState, f: Field, name: Seq<char>, k: int, j: int)
    ensures
        cf_attrs(attrs, st, f, name, true) matches Ok(s2) ==> keeps_clap(st, s2) && (0 <= k
            < attrs.len() && path_is(attrs[k], "interactive_clap"@) && 0 <= j < attrs[k].tokens@.len()
            && attrs[k].tokens@[j].kind == TokenKind::Group && attrs[k].tokens@[j].stream@
            == "long_vec_multiple_opt"@ ==> s2.clap.contains(ClapAttrView::Word("long"@))),
    decreases attrs.len(),
{
    if attrs.len() > 0 {
        let a = attrs[0];
        if cf_reads(a) {
            lemma_tokens_keep(a.tokens@, st, a, f, name, j);
        }
        let r = if cf_reads(a) {
            cf_tokens(a.tokens@, st, a, f, name, true)
        } else {
            Ok(st)
        };
        if let Ok(s1) = r {
            let s1d = cf_doc_step(s1, a, true);
            assert(s1d.clap == s1.clap);
            lemma_attrs_keep(attrs.drop_first(), s1d, f, name, k - 1, j);
            if 0 < k < attrs.len() {
                assert(attrs.drop_first()[k - 1] == attrs[k]);
            }
        }
    }
}

/// `#[interactive_clap(long_vec_multiple_opt)]` implies `long` and `skip_interactive_input`:
/// the field of `Cli<Name>` that stands for it, when there is one, is marked `long`, its
/// value is copied as given, and no prompt is generated for it.
pub proof fn law_long_vec_multiple_opt_implies_long(f: Field, name: Seq<char>, ctx: ContextDirView, k: int, j: int)
    requires
        f.ident is Some,
        marks_long_vec(f, k, j),
    ensures
        crate::cli_struct::cli_field_spec(f, name, true) matches Ok((Some(p), _)) ==> p.clap_attrs.contains(
            ClapAttrView::Word("long"@),
        ),
        field_value_spec(f) == Some(FieldValueView::Copied(f.ident->0@)),
        input_arg_spec(f, ctx, InputVersion::Structs) is None,
        input_arg_spec(f, ctx, InputVersion::Methods) is None,
{
    let t = f.attrs@[k].tokens@[j];
    lemma_token_selected(f.attrs@, "interactive_clap"@, k, j);
    let ts = crate::field_attrs::ic_tokens(f);
    let q = choose|q: int| 0 <= q < ts.len() && ts[q] == t;
    lemma_contains_self(t.stream@);
    reveal_strlit("long_vec_multiple_opt");
    assert(probe_holds(Probe::Either("skip_interactive_input", "long_vec_multiple_opt"), t.stream@));
    assert(group_passes(ts[q], Probe::Either("skip_interactive_input", "long_vec_multiple_opt")));
    if let Ok(ty) = cli_field_type_spec(f.ty) {
        let init = CfState {
            decl: Some(crate::cli_struct::CliFieldDeclView::Typed(ty)),
            cfg: seq![],
            doc: seq![],
            clap: seq![],
            skip: seq![],
        };
        lemma_attrs_keep(f.attrs@, init, f, name, k, j);
    }
}

/// `_` in place of each `-`.
pub open spec fn dashes_to_underscores(k: Seq<char>) -> Seq<char> {
    k.map_values(|c: char| if c == '-' { '_' } else { c })
}

/// A CamelCase name: an ASCII uppercase letter, then ASCII letters and digits.
pub open spec fn camel_case_name(s: Seq<char>) -> bool {
    &&& s.len() > 0
    &&& 'A' <= s[0] && s[0] <= 'Z'
    &&& forall|i: int|
        0 <= i < s.len() ==> ('A' <= #[trigger] s[i] && s[i] <= 'Z') || ('a' <= s[i] && s[i] <= 'z')
            || ('0' <= s[i] && s[i] <= '9')
}

/// `camel_prefix` reads no character at or beyond `n`.
proof fn lemma_camel_prefix_local(x: Seq<char>, y: Seq<char>, n: nat)
    requires
        n <= x.len(),
        n <= y.len(),
        x.take(n as int) == y.take(n as int),
    ensures
        camel_prefix(x, n) == camel_prefix(y, n),
    decreases n,
{
    if n > 0 {
        assert(x[n - 1] == x.take(n as int)[n - 1]);
        assert(y[n - 1] == y.take(n as int)[n - 1]);
        if n > 1 {
            assert(x[n - 2] == x.take(n as int)[n - 2]);
            assert(y[n - 2] == y.take(n as int)[n - 2]);
        }
        assert(x.take(n - 1) =~= x.take(n as int).take(n - 1));
        assert(y.take(n - 1) =~= y.take(n as int).take(n - 1));
        lemma_camel_prefix_local(x, y, (n - 1) as nat);
    }
}

/// What the snake form of the first `n` characters of a CamelCase name looks like, and that
/// its CamelCase form gives those characters back.
proof fn lemma_camel_of_snake_prefix(s: Seq<char>, n: nat)
    requires
        camel_case_name(s),
        n <= s.len(),
    ensures
        ({
            let l = dashes_to_underscores(kebab_prefix(s, n));
            &&& n > 0 ==> l.len() > 0 && l.last() != '_'
            &&& forall|i: int| 0 <= i < l.len() ==> is_ascii_char(#[trigger] l[i]) && !('A' <= l[i] && l[i] <= 'Z')
            &&& forall|i: int| 0 <= i < l.len() && #[trigger] starts_piece(l, i) ==> l[i] != '_'
            &&& camel_prefix(l, l.len()) == s.take(n as int)
        }),
    decreases n,
{
    let l = dashes_to_underscores(kebab_prefix(s, n));
    if n == 0 {
        assert(l =~= Seq::<char>::empty());
        assert(s.take(0) =~= Seq::<char>::empty());
    } else {
        let m = (n - 1) as nat;
        lemma_camel_of_snake_prefix(s, m);
        let l0 = dashes_to_underscores(kebab_prefix(s, m));
        let c = s[m as int];
        let lc = ascii_lower(c);
        assert(kebab_prefix(s, n) == kebab_prefix(s, m) + kebab_piece(s, m as int));
        let up = 'A' <= c && c <= 'Z';
        if up {
            assert(97 <= (c as int) + 32 <= 122);
            assert(ascii_upper(lc) == c);
        } else {
            assert(lc == c);
        }
        assert(is_ascii_char(c));
        assert(is_upper(c) == up);
        assert(kebab_char(c) == lc);
        let tail: Seq<char> = if m > 0 && up { seq!['_', lc] } else { seq![lc] };
        assert(l =~= l0 + tail);
        assert(l.take(l0.len() as int) =~= l0.take(l0.len() as int));
        lemma_camel_prefix_local(l, l0, l0.len());
        assert(l.len() == l0.len() + tail.len());
        assert(s.take(n as int) =~= s.take(m as int).push(c));
        let k: int = l0.len() as int;
        if m > 0 && up {
            assert(l[k] == '_');
            assert(l[k + 1] == lc);
            assert(camel_prefix(l, (k + 1) as nat) == camel_prefix(l, k as nat) + camel_piece(l, k));
            assert(camel_piece(l, k) =~= Seq::<char>::empty());
            assert(starts_piece(l, k + 1));
            assert(camel_piece(l, k + 1) =~= seq![c]);
            assert(camel_prefix(l, (k + 2) as nat) == camel_prefix(l, (k + 1) as nat) + camel_piece(l, k + 1));
        } else {
            assert(l[k] == lc);
            if m == 0 {
                assert(k == 0);
                assert(starts_piece(l, 0));
                assert(camel_piece(l, 0) =~= seq![c]);
            } else {
                assert(l[k - 1] == l0.last());
                assert(!starts_piece(l, k));
                assert(camel_piece(l, k) =~= seq![c]);
            }
            assert(camel_prefix(l, (k + 1) as nat) == camel_prefix(l, k as nat) + camel_piece(l, k));
        }
        assert forall|i: int| 0 <= i < l.len() implies is_ascii_char(#[trigger] l[i]) && !('A' <= l[i]
            && l[i] <= 'Z') by {
            if i < l0.len() {
                assert(l[i] == l0[i]);
            }
        }
        assert forall|i: int| 0 <= i < l.len() && #[trigger] starts_piece(l, i) implies l[i] != '_' by {
            if i < l0.len() {
                assert(l[i] == l0[i]);
                if i > 0 {
                    assert(l[i - 1] == l0[i - 1]);
                }
                assert(starts_piece(l0, i));
            } else if i > l0.len() {
                assert(l[i] == lc);
            } else if m > 0 {
                assert(l[i - 1] == l0.last());
            }
        }
    }
}

/// The CamelCase form of the snake form of a CamelCase name (its kebab-case form with `_`
/// for `-`) is the name itself, and `snake_case_to_camel_case` returns on it.
pub proof fn law_camel_of_snake_of_camel(s: Seq<char>)
    requires
        camel_case_name(s),
    ensures
        camel_ok(lowercase(dashes_to_underscores(kebab(s)))),
        camel(lowercase(dashes_to_underscores(kebab(s)))) == s,
{
    let l = dashes_to_underscores(kebab(s));
    lemma_camel_of_snake_prefix(s, s.len());
    assert(all_ascii(l));
    assert(lowercase(l) =~= l) by {
        assert forall|i: int| 0 <= i < l.len() implies ascii_lower(l[i]) == l[i] by {
            assert(is_ascii_char(l[i]));
        }
    }
    assert(s.take(s.len() as int) =~= s);
    assert forall|i: int| 0 <= i < l.len() && #[trigger] starts_piece(l, i) implies l[i] != '_'
        && is_ascii_char(l[i]) by {
        assert(is_ascii_char(l[i]));
    }
}

} // verus!
