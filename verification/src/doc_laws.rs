//! What the derives take from doc comments, stated for every run of attributes: each doc
//! attribute contributes on its own, in order, and a run of attributes contributes what its
//! parts contribute, one after the other.

use vstd::prelude::*;
use crate::model::{Attr, AttrToken, TokenKind, path_is};
use crate::field_attrs::{doc_literals, doc_texts, first_literal};
use crate::input_args::{classic_prompt_spec, doc_texts_unquoted, join, last_literal};
use crate::model::Field;
use crate::error::Outcome;
use crate::case::{camel, lowercase};
use crate::cli_struct::named_arg_enum_name;
use crate::tokens::Probe;
use crate::structs::clap_for_named_arg_enum::{first_named_arg_spec, named_arg_transform_spec};

verus! {

/// Some attribute of the run is a doc comment.
pub open spec fn has_doc(attrs: Seq<Attr>) -> bool {
    exists|k: int| 0 <= k < attrs.len() && path_is(#[trigger] attrs[k], "doc"@)
}

/// `j` is the first literal among the tokens.
pub open spec fn first_literal_at(ts: Seq<AttrToken>, j: int) -> bool {
    &&& 0 <= j < ts.len()
    &&& ts[j].kind == TokenKind::Literal
    &&& forall|i: int| 0 <= i < j ==> (#[trigger] ts[i]).kind != TokenKind::Literal
}

/// `j` is the last literal among the tokens.
pub open spec fn last_literal_at(ts: Seq<AttrToken>, j: int) -> bool {
    &&& 0 <= j < ts.len()
    &&& ts[j].kind == TokenKind::Literal
    &&& forall|i: int| j < i < ts.len() ==> (#[trigger] ts[i]).kind != TokenKind::Literal
}

/// No token is a literal.
pub open spec fn no_literal(ts: Seq<AttrToken>) -> bool {
    forall|i: int| 0 <= i < ts.len() ==> (#[trigger] ts[i]).kind != TokenKind::Literal
}

proof fn lemma_first_literal(ts: Seq<AttrToken>, j: int)
    ensures
        first_literal_at(ts, j) ==> first_literal(ts) == Some(ts[j].text@),
        no_literal(ts) ==> first_literal(ts) == None::<Seq<char>>,
    decreases ts.len(),
{
    if ts.len() > 0 {
        let r = ts.drop_first();
        if first_literal_at(ts, j) && j > 0 {
            assert(ts[0].kind != TokenKind::Literal);
            assert forall|i: int| 0 <= i < j - 1 implies (#[trigger] r[i]).kind != TokenKind::Literal by {
                assert(r[i] == ts[i + 1]);
            }
            assert(r[j - 1] == ts[j]);
            assert(first_literal_at(r, j - 1));
        }
        if no_literal(ts) {
            assert(ts[0].kind != TokenKind::Literal);
            assert forall|i: int| 0 <= i < r.len() implies (#[trigger] r[i]).kind != TokenKind::Literal by {
                assert(r[i] == ts[i + 1]);
            }
        }
        lemma_first_literal(r, j - 1);
    }
}

proof fn lemma_last_literal(ts: Seq<AttrToken>, j: int)
    ensures
        last_literal_at(ts, j) ==> last_literal(ts) == ts[j].text@,
        no_literal(ts) ==> last_literal(ts) == Seq::<char>::empty(),
    decreases ts.len(),
{
    if ts.len() > 0 {
        let r = ts.drop_last();
        if last_literal_at(ts, j) && j < ts.len() - 1 {
            assert(ts[ts.len() - 1].kind != TokenKind::Literal);
            assert forall|i: int| j < i < r.len() implies (#[trigger] r[i]).kind != TokenKind::Literal by {
                assert(r[i] == ts[i]);
            }
            assert(r[j] == ts[j]);
            assert(last_literal_at(r, j));
        }
        if no_literal(ts) {
            assert(ts[ts.len() - 1].kind != TokenKind::Literal);
            assert forall|i: int| 0 <= i < r.len() implies (#[trigger] r[i]).kind != TokenKind::Literal by {
                assert(r[i] == ts[i]);
            }
        }
        lemma_last_literal(r, j);
    }
}

/// The doc attributes of two runs, one after the other, are those of the first run, then
/// those of the second: each doc attribute is kept, in order, whatever comes before it.
pub proof fn law_doc_texts_concat(a: Seq<Attr>, b: Seq<Attr>)
    ensures
        doc_texts(a + b) == doc_texts(a) + doc_texts(b),
    decreases b.len(),
{
    if b.len() == 0 {
        assert(a + b =~= a);
        assert(doc_texts(a) + doc_texts(b) =~= doc_texts(a));
    } else {
        assert((a + b).drop_last() =~= a + b.drop_last());
        assert((a + b).last() == b.last());
        law_doc_texts_concat(a, b.drop_last());
        let t: Seq<Seq<char>> = if path_is(b.last(), "doc"@) { seq![b.last().text@] } else { seq![] };
        assert(doc_texts(a) + (doc_texts(b.drop_last()) + t) =~= (doc_texts(a) + doc_texts(b.drop_last())) + t);
    }
}

/// A single attribute gives its whole printed text when it is a doc comment, and nothing
/// otherwise.
pub proof fn law_doc_texts_single(x: Attr)
    ensures
        doc_texts(seq![x]) == if path_is(x, "doc"@) {
            seq![x.text@]
        } else {
            Seq::<Seq<char>>::empty()
        },
{
    assert(seq![x].drop_last() =~= Seq::<Attr>::empty());
    assert(doc_texts(Seq::<Attr>::empty()) + doc_texts(seq![x]).subrange(0, doc_texts(seq![x]).len() as int)
        =~= doc_texts(seq![x]));
}

/// The doc literals of two runs, one after the other, are those of the first run, then
/// those of the second: every doc attribute with a literal gives one, in order.
pub proof fn law_doc_literals_concat(a: Seq<Attr>, b: Seq<Attr>)
    ensures
        doc_literals(a + b) == doc_literals(a) + doc_literals(b),
    decreases b.len(),
{
    if b.len() == 0 {
        assert(a + b =~= a);
        assert(doc_literals(a) + doc_literals(b) =~= doc_literals(a));
    } else {
        assert((a + b).drop_last() =~= a + b.drop_last());
        assert((a + b).last() == b.last());
        law_doc_literals_concat(a, b.drop_last());
        let t: Seq<Seq<char>> = if path_is(b.last(), "doc"@) {
            match first_literal(b.last().tokens@) {
                Some(l) => seq![l],
                None => seq![],
            }
        } else {
            seq![]
        };
        assert(doc_literals(a) + (doc_literals(b.drop_last()) + t) =~= (doc_literals(a) + doc_literals(
            b.drop_last(),
        )) + t);
    }
}

/// A single attribute gives the text of its first literal when it is a doc comment that
/// holds one, and nothing otherwise.
pub proof fn law_doc_literals_single(x: Attr, j: int)
    ensures
        !path_is(x, "doc"@) ==> doc_literals(seq![x]) == Seq::<Seq<char>>::empty(),
        path_is(x, "doc"@) && first_literal_at(x.tokens@, j) ==> doc_literals(seq![x]) == seq![
            x.tokens@[j].text@,
        ],
        path_is(x, "doc"@) && no_literal(x.tokens@) ==> doc_literals(seq![x]) == Seq::<Seq<char>>::empty(),
{
    lemma_first_literal(x.tokens@, j);
    assert(seq![x].drop_last() =~= Seq::<Attr>::empty());
    assert(seq![x].last() == x);
    let t: Seq<Seq<char>> = if path_is(x, "doc"@) {
        match first_literal(x.tokens@) {
            Some(l) => seq![l],
            None => seq![],
        }
    } else {
        seq![]
    };
    assert(doc_literals(seq![x]) == doc_literals(Seq::<Attr>::empty()) + t);
    assert(Seq::<Seq<char>>::empty() + t =~= t);
}

proof fn lemma_unquoted_concat(a: Seq<Attr>, b: Seq<Attr>)
    ensures
        doc_texts_unquoted(a + b) == doc_texts_unquoted(a) + doc_texts_unquoted(b),
    decreases b.len(),
{
    if b.len() == 0 {
        assert(a + b =~= a);
        assert(doc_texts_unquoted(a) + doc_texts_unquoted(b) =~= doc_texts_unquoted(a));
    } else {
        assert((a + b).drop_last() =~= a + b.drop_last());
        assert((a + b).last() == b.last());
        lemma_unquoted_concat(a, b.drop_last());
        let t: Seq<Seq<char>> = if path_is(b.last(), "doc"@) {
            seq![last_literal(b.last().tokens@).filter(|c: char| c != '"')]
        } else {
            seq![]
        };
        assert(doc_texts_unquoted(a) + (doc_texts_unquoted(b.drop_last()) + t) =~= (doc_texts_unquoted(a)
            + doc_texts_unquoted(b.drop_last())) + t);
    }
}

proof fn lemma_unquoted_empty(a: Seq<Attr>)
    ensures
        (doc_texts_unquoted(a).len() == 0) <==> !has_doc(a),
    decreases a.len(),
{
    if a.len() > 0 {
        let r = a.drop_last();
        lemma_unquoted_empty(r);
        if has_doc(r) {
            let k = choose|k: int| 0 <= k < r.len() && path_is(#[trigger] r[k], "doc"@);
            assert(a[k] == r[k]);
        }
        if has_doc(a) && !path_is(a.last(), "doc"@) {
            let k = choose|k: int| 0 <= k < a.len() && path_is(#[trigger] a[k], "doc"@);
            assert(k < r.len());
            assert(r[k] == a[k]);
        }
        if path_is(a.last(), "doc"@) {
            assert(path_is(a[a.len() - 1], "doc"@));
        }
    }
}

proof fn lemma_join_concat(p: Seq<Seq<char>>, q: Seq<Seq<char>>, sep: Seq<char>)
    ensures
        join(p + q, sep) == if p.len() == 0 {
            join(q, sep)
        } else if q.len() == 0 {
            join(p, sep)
        } else {
            join(p, sep) + sep + join(q, sep)
        },
    decreases q.len(),
{
    if q.len() == 0 {
        assert(p + q =~= p);
    } else if p.len() == 0 {
        assert(p + q =~= q);
    } else {
        let q0 = q.drop_last();
        assert((p + q).drop_last() =~= p + q0);
        assert((p + q).last() == q.last());
        lemma_join_concat(p, q0, sep);
        if q0.len() == 0 {
            assert(q.len() == 1);
            assert(p + q0 =~= p);
            assert(join(q, sep) == q[0]);
        } else {
            assert(join(q, sep) == join(q0, sep) + sep + q.last());
            assert(join(p, sep) + sep + join(q0, sep) + sep + q.last() =~= join(p, sep) + sep + (join(
                q0,
                sep,
            ) + sep + q.last()));
        }
    }
}

/// The classic prompt of two runs of attributes, one after the other: the prompt of the
/// first run, a line break and two spaces, then the prompt of the second run; a run
/// without doc comments adds nothing, not even the line break.
pub proof fn law_classic_prompt_concat(a: Seq<Attr>, b: Seq<Attr>)
    ensures
        classic_prompt_spec(a + b) == if !has_doc(a) {
            classic_prompt_spec(b)
        } else if !has_doc(b) {
            classic_prompt_spec(a)
        } else {
            classic_prompt_spec(a) + "\n  "@ + classic_prompt_spec(b)
        },
{
    lemma_unquoted_concat(a, b);
    lemma_unquoted_empty(a);
    lemma_unquoted_empty(b);
    lemma_join_concat(doc_texts_unquoted(a), doc_texts_unquoted(b), "\n  "@);
}

/// The classic prompt of a single attribute: for a doc comment, its last literal without
/// its `"` characters (nothing when it holds no literal); nothing for another attribute.
pub proof fn law_classic_prompt_single(x: Attr, j: int)
    ensures
        !path_is(x, "doc"@) ==> classic_prompt_spec(seq![x]) == Seq::<char>::empty(),
        path_is(x, "doc"@) && last_literal_at(x.tokens@, j) ==> classic_prompt_spec(seq![x])
            == x.tokens@[j].text@.filter(|c: char| c != '"'),
        path_is(x, "doc"@) && no_literal(x.tokens@) ==> classic_prompt_spec(seq![x]) == Seq::<char>::empty(),
{
    lemma_last_literal(x.tokens@, j);
    assert(seq![x].drop_last() =~= Seq::<Attr>::empty());
    assert(seq![x].last() == x);
    let t: Seq<Seq<char>> = if path_is(x, "doc"@) {
        seq![last_literal(x.tokens@).filter(|c: char| c != '"')]
    } else {
        seq![]
    };
    assert(doc_texts_unquoted(seq![x]) == doc_texts_unquoted(Seq::<Attr>::empty()) + t);
    assert(doc_texts_unquoted(seq![x]) =~= t);
    if path_is(x, "doc"@) && no_literal(x.tokens@) {
        reveal(Seq::filter);
        assert(Seq::<char>::empty().filter(|c: char| c != '"') =~= Seq::<char>::empty());
    }
}

/// The helper enum of a `named_arg` field carries, on its variant, every doc comment of the
/// field, printed and in order; the variant is the field's name in CamelCase, holding the
/// field's type, and the enum is named after the type and the struct.
pub proof fn law_named_arg_enum_keeps_docs(name: Seq<char>, f: Field, p: Probe)
    ensures
        named_arg_transform_spec(name, f, p) matches Outcome::Gives(Some(e)) ==> e.doc_attrs == doc_texts(
            f.attrs@,
        ) && e.ty == f.ty.text@ && e.variant_name == camel(lowercase(f.ident->0@)) && e.enum_name
            == named_arg_enum_name(f.ty, name),
{
}

/// The helper enum that the search over the fields finds is that of one of the fields, with
/// every doc comment of that field.
pub proof fn law_first_named_arg_keeps_docs(name: Seq<char>, fields: Seq<Field>, p: Probe)
    ensures
        first_named_arg_spec(name, fields, p) matches Outcome::Gives(Some(e)) ==> exists|i: int|
            0 <= i < fields.len() && e.doc_attrs == doc_texts((#[trigger] fields[i]).attrs@) && e.ty
                == fields[i].ty.text@,
    decreases fields.len(),
{
    if fields.len() > 0 {
        law_first_named_arg_keeps_docs(name, fields.drop_first(), p);
        if let Outcome::Gives(Some(e)) = first_named_arg_spec(name, fields, p) {
            if named_arg_transform_spec(name, fields[0], p) == Outcome::<Option<crate::structs::clap_for_named_arg_enum::NamedArgEnumView>>::Gives(None) {
                let r = fields.drop_first();
                let i = choose|i: int| 0 <= i < r.len() && e.doc_attrs == doc_texts((#[trigger] r[i]).attrs@) && e.ty == r[i].ty.text@;
                assert(r[i] == fields[i + 1]);
            } else {
                assert(e.doc_attrs == doc_texts(fields[0].attrs@));
            }
        }
    }
}

} // verus!
