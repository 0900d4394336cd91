//! The tokens of a run of attributes, read in order, and the tests the derives make of them.

use vstd::prelude::*;
use crate::model::{Attr, AttrToken, TokenKind, path_is, attr_path_is};
use crate::text::{seq_contains, str_contains, str_eq};

verus! {

/// A test of a printed token stream.
pub enum Probe {
    /// The stream contains the text.
    Contains(&'static str),
    /// The stream contains one text or the other.
    Either(&'static str, &'static str),
    /// The stream is exactly the text.
    Equals(&'static str),
    /// The stream contains neither text.
    Neither(&'static str, &'static str),
    /// The stream, with its spaces removed, is exactly the text.
    EqualsWithoutSpaces(&'static str),
    /// The stream contains the first text and not the second.
    ContainsBut(&'static str, &'static str),
}

/// The text without its space characters.
pub open spec fn without_spaces(s: Seq<char>) -> Seq<char> {
    s.filter(|c: char| c != ' ')
}

/// The text without its space characters.
pub fn remove_spaces(s: &str) -> (res: String)
    ensures
        res@ == without_spaces(s@),
{
    let v = crate::text::chars_of(s);
    let mut out = String::new();
    let mut i: usize = 0;
    while i < v.len()
        invariant
            v@ == s@,
            i <= v.len(),
            out@ == s@.take(i as int).filter(|c: char| c != ' '),
        decreases v.len() - i,
    {
        reveal(Seq::filter);
        assert(s@.take(i + 1).drop_last() =~= s@.take(i as int));
        if v[i] != ' ' {
            crate::text::push_char(&mut out, v[i]);
        }
        i = i + 1;
    }
    assert(s@.take(s@.len() as int) =~= s@);
    out
}

/// Whether the printed stream `s` passes the test `p`.
pub open spec fn probe_holds(p: Probe, s: Seq<char>) -> bool {
    match p {
        Probe::Contains(a) => seq_contains(s, a@),
        Probe::Either(a, b) => seq_contains(s, a@) || seq_contains(s, b@),
        Probe::Equals(a) => s == a@,
        Probe::Neither(a, b) => !seq_contains(s, a@) && !seq_contains(s, b@),
        Probe::EqualsWithoutSpaces(a) => without_spaces(s) == a@,
        Probe::ContainsBut(a, b) => seq_contains(s, a@) && !seq_contains(s, b@),
    }
}

/// Whether the printed stream `s` passes the test `p`.
pub fn probe(p: &Probe, s: &str) -> (res: bool)
    ensures
        res == probe_holds(*p, s@),
{
    match p {
        Probe::Contains(a) => str_contains(s, a),
        Probe::Either(a, b) => str_contains(s, a) || str_contains(s, b),
        Probe::Equals(a) => str_eq(s, a),
        Probe::Neither(a, b) => !str_contains(s, a) && !str_contains(s, b),
        Probe::EqualsWithoutSpaces(a) => {
            let t = remove_spaces(s);
            str_eq(t.as_str(), a)
        },
        Probe::ContainsBut(a, b) => str_contains(s, a) && !str_contains(s, b),
    }
}

/// The path filter as a sequence of characters.
pub open spec fn path_view(path: Option<&str>) -> Option<Seq<char>> {
    match path {
        Some(p) => Some(p@),
        None => None,
    }
}

/// Whether an attribute passes the path filter (`None` lets every attribute through).
pub open spec fn selects(a: Attr, path: Option<Seq<char>>) -> bool {
    match path {
        Some(p) => path_is(a, p),
        None => true,
    }
}

/// The tokens of the attributes that pass the path filter, attribute after attribute.
pub open spec fn tokens_of(attrs: Seq<Attr>, path: Option<Seq<char>>) -> Seq<AttrToken>
    decreases attrs.len(),
{
    if attrs.len() == 0 {
        seq![]
    } else {
        tokens_of(attrs.drop_last(), path) + if selects(attrs.last(), path) {
            attrs.last().tokens@
        } else {
            seq![]
        }
    }
}

/// The token is a group whose stream passes the test.
pub open spec fn group_passes(t: AttrToken, p: Probe) -> bool {
    t.kind == TokenKind::Group && probe_holds(p, t.stream@)
}

/// Some token of `ts` is a group whose stream passes the test.
pub open spec fn any_group_passes(ts: Seq<AttrToken>, p: Probe) -> bool {
    exists|k: int| 0 <= k < ts.len() && group_passes(#[trigger] ts[k], p)
}

/// Some token of `ts`, printed whole, passes the test.
pub open spec fn any_text_passes(ts: Seq<AttrToken>, p: Probe) -> bool {
    exists|k: int| 0 <= k < ts.len() && probe_holds(p, (#[trigger] ts[k]).text@)
}

/// What a search of `ts` for a group whose stream passes the test finds, where a token that
/// is not a group stops the search with an error (`abort_call_site!` in the derives):
/// `Ok(true)` for a group found before any such token, `Ok(false)` when every token is a
/// group and none passes.
pub open spec fn scan_groups(ts: Seq<AttrToken>, p: Probe) -> Result<bool, ()>
    decreases ts.len(),
{
    if ts.len() == 0 {
        Ok(false)
    } else if ts[0].kind != TokenKind::Group {
        Err(())
    } else if probe_holds(p, ts[0].stream@) {
        Ok(true)
    } else {
        scan_groups(ts.drop_first(), p)
    }
}

/// `refs` points, in order, at the tokens of `ts` within `attrs`.
pub open spec fn refs_match(attrs: Seq<Attr>, refs: Seq<(usize, usize)>, ts: Seq<AttrToken>) -> bool {
    &&& refs.len() == ts.len()
    &&& forall|k: int|
        0 <= k < refs.len() ==> {
            &&& (#[trigger] refs[k]).0 < attrs.len()
            &&& refs[k].1 < attrs[refs[k].0 as int].tokens@.len()
            &&& attrs[refs[k].0 as int].tokens@[refs[k].1 as int] == ts[k]
        }
}

/// Whether an attribute passes the path filter.
pub fn attr_selected(a: &Attr, path: Option<&str>) -> (res: bool)
    ensures
        res == selects(*a, path_view(path)),
{
    match path {
        Some(p) => attr_path_is(a, p),
        None => true,
    }
}

/// Positions (attribute, token) of the tokens of the attributes that pass the path filter.
pub fn select_tokens(attrs: &Vec<Attr>, path: Option<&str>) -> (res: Vec<(usize, usize)>)
    ensures
        refs_match(attrs@, res@, tokens_of(attrs@, path_view(path))),
{
    let ghost pv = path_view(path);
    let mut res: Vec<(usize, usize)> = Vec::new();
    let mut i: usize = 0;
    while i < attrs.len()
        invariant
            i <= attrs.len(),
            pv == path_view(path),
            refs_match(attrs@, res@, tokens_of(attrs@.take(i as int), pv)),
        decreases attrs.len() - i,
    {
        let ghost before = tokens_of(attrs@.take(i as int), pv);
        assert(attrs@.take(i + 1).drop_last() =~= attrs@.take(i as int));
        if attr_selected(&attrs[i], path) {
            let mut j: usize = 0;
            while j < attrs[i].tokens.len()
                invariant
                    i < attrs.len(),
                    j <= attrs@[i as int].tokens@.len(),
                    refs_match(attrs@, res@, before + attrs@[i as int].tokens@.take(j as int)),
                decreases attrs@[i as int].tokens@.len() - j,
            {
                res.push((i, j));
                j = j + 1;
                assert(before + attrs@[i as int].tokens@.take(j as int) =~= (before
                    + attrs@[i as int].tokens@.take(j - 1)).push(attrs@[i as int].tokens@[j - 1]));
            }
            assert(attrs@[i as int].tokens@.take(j as int) =~= attrs@[i as int].tokens@);
        } else {
            assert(before =~= before + Seq::<AttrToken>::empty());
        }
        i = i + 1;
    }
    assert(attrs@.take(attrs.len() as int) =~= attrs@);
    res
}

/// Whether some selected token is a group whose stream passes the test.
pub fn any_group(attrs: &Vec<Attr>, path: Option<&str>, p: &Probe) -> (res: bool)
    ensures
        res == any_group_passes(tokens_of(attrs@, path_view(path)), *p),
{
    let ghost ts = tokens_of(attrs@, path_view(path));
    let refs = select_tokens(attrs, path);
    let mut k: usize = 0;
    while k < refs.len()
        invariant
            refs_match(attrs@, refs@, ts),
            ts == tokens_of(attrs@, path_view(path)),
            k <= refs.len(),
            forall|q: int| 0 <= q < k ==> !group_passes(#[trigger] ts[q], *p),
        decreases refs.len() - k,
    {
        let (ai, ti) = refs[k];
        assert(refs@[k as int] == (ai, ti));
        assert(attrs@[ai as int].tokens@[ti as int] == ts[k as int]);
        let t = &attrs[ai].tokens[ti];
        if t.kind == TokenKind::Group && probe(p, t.stream.as_str()) {
            assert(group_passes(ts[k as int], *p));
            assert(any_group_passes(ts, *p));
            return true;
        }
        k = k + 1;
    }
    false
}

/// Whether some selected token, printed whole, passes the test.
pub fn any_text(attrs: &Vec<Attr>, path: Option<&str>, p: &Probe) -> (res: bool)
    ensures
        res == any_text_passes(tokens_of(attrs@, path_view(path)), *p),
{
    let ghost ts = tokens_of(attrs@, path_view(path));
    let refs = select_tokens(attrs, path);
    let mut k: usize = 0;
    while k < refs.len()
        invariant
            refs_match(attrs@, refs@, ts),
            ts == tokens_of(attrs@, path_view(path)),
            k <= refs.len(),
            forall|q: int| 0 <= q < k ==> !probe_holds(*p, (#[trigger] ts[q]).text@),
        decreases refs.len() - k,
    {
        let (ai, ti) = refs[k];
        assert(refs@[k as int] == (ai, ti));
        assert(attrs@[ai as int].tokens@[ti as int] == ts[k as int]);
        if probe(p, attrs[ai].tokens[ti].text.as_str()) {
            assert(probe_holds(*p, ts[k as int].text@));
            assert(any_text_passes(ts, *p));
            return true;
        }
        k = k + 1;
    }
    false
}

/// Searches the selected tokens for a group whose stream passes the test, stopping with an
/// error at a token that is not a group.
pub fn scan(attrs: &Vec<Attr>, path: Option<&str>, p: &Probe) -> (res: Result<bool, ()>)
    ensures
        res == scan_groups(tokens_of(attrs@, path_view(path)), *p),
{
    let ghost ts = tokens_of(attrs@, path_view(path));
    let refs = select_tokens(attrs, path);
    let mut k: usize = 0;
    assert(ts.skip(0) =~= ts);
    while k < refs.len()
        invariant
            refs_match(attrs@, refs@, ts),
            ts == tokens_of(attrs@, path_view(path)),
            k <= refs.len(),
            scan_groups(ts, *p) == scan_groups(ts.skip(k as int), *p),
        decreases refs.len() - k,
    {
        let (ai, ti) = refs[k];
        assert(refs@[k as int] == (ai, ti));
        assert(attrs@[ai as int].tokens@[ti as int] == ts[k as int]);
        let t = &attrs[ai].tokens[ti];
        assert(ts.skip(k as int)[0] == ts[k as int]);
        if t.kind != TokenKind::Group {
            return Err(());
        }
        if probe(p, t.stream.as_str()) {
            return Ok(true);
        }
        assert(ts.skip(k as int).drop_first() =~= ts.skip(k + 1));
        k = k + 1;
    }
    assert(ts.skip(k as int).len() == 0);
    Ok(false)
}

} // verus!
