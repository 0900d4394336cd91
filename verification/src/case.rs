//! Case conversions of identifiers: `to_kebab_case` and `snake_case_to_camel_case`.

use vstd::prelude::*;
use crate::text::{chars_of, push_char};

verus! {

/// Whether `c` is an ASCII character.
pub open spec fn is_ascii_char(c: char) -> bool {
    c < '\u{80}'
}

/// Whether every character of `s` is ASCII.
pub open spec fn all_ascii(s: Seq<char>) -> bool {
    forall|i: int| 0 <= i < s.len() ==> is_ascii_char(#[trigger] s[i])
}

/// `char::to_ascii_lowercase`.
pub open spec fn ascii_lower(c: char) -> char {
    if 'A' <= c && c <= 'Z' {
        ((c as int) + 32) as char
    } else {
        c
    }
}

/// `char::to_ascii_uppercase`.
pub open spec fn ascii_upper(c: char) -> char {
    if 'a' <= c && c <= 'z' {
        ((c as int) - 32) as char
    } else {
        c
    }
}

/// Whether a character beyond ASCII has the Unicode `Uppercase` property.
pub uninterp spec fn non_ascii_is_uppercase(c: char) -> bool;

/// The Unicode `Uppercase` property: within ASCII it holds of `'A'..='Z'` only.
pub open spec fn is_upper(c: char) -> bool {
    if is_ascii_char(c) {
        'A' <= c && c <= 'Z'
    } else {
        non_ascii_is_uppercase(c)
    }
}

/// What `str::to_lowercase` returns for a string that holds a character beyond ASCII.
pub uninterp spec fn non_ascii_str_lowercase(s: Seq<char>) -> Seq<char>;

/// The Unicode lowercase mapping of a string: on ASCII strings, the ASCII lowercase of
/// each character.
pub open spec fn lowercase(s: Seq<char>) -> Seq<char> {
    if all_ascii(s) {
        s.map_values(|c: char| ascii_lower(c))
    } else {
        non_ascii_str_lowercase(s)
    }
}

/// `char::is_uppercase`: whether `c` has the Unicode `Uppercase` property. Within ASCII the
/// property holds of `'A'..='Z'` and of no other character; beyond ASCII the answer is only
/// named here, not stated.
#[verifier::external_body]
fn char_is_uppercase(c: char) -> (res: bool)
    ensures
        is_ascii_char(c) ==> res == ('A' <= c && c <= 'Z'),
        !is_ascii_char(c) ==> res == non_ascii_is_uppercase(c),
{
    c.is_uppercase()
}

/// `str::to_lowercase`: the Unicode lowercase mapping of the string. On an ASCII string it
/// maps `'A'..='Z'` to `'a'..='z'` and keeps every other character; on other strings the
/// result is only named here, not stated.
#[verifier::external_body]
fn str_to_lowercase(s: &str) -> (res: String)
    ensures
        all_ascii(s@) ==> res@ == s@.map_values(|c: char| ascii_lower(c)),
        !all_ascii(s@) ==> res@ == non_ascii_str_lowercase(s@),
{
    s.to_lowercase()
}

fn to_ascii_lowercase(c: char) -> (res: char)
    ensures
        res == ascii_lower(c),
{
    if 'A' <= c && c <= 'Z' {
        let u: u32 = c as u32;
        let b: u8 = u as u8;
        assert(b == u) by (bit_vector)
            requires
                u < 256,
                b == u as u8,
        ;
        ((b + 32) as char)
    } else {
        c
    }
}

fn to_ascii_uppercase(c: char) -> (res: char)
    ensures
        res == ascii_upper(c),
{
    if 'a' <= c && c <= 'z' {
        let u: u32 = c as u32;
        let b: u8 = u as u8;
        assert(b == u) by (bit_vector)
            requires
                u < 256,
                b == u as u8,
        ;
        ((b - 32) as char)
    } else {
        c
    }
}

/// The character that `to_kebab_case` writes for the input character `c`.
pub open spec fn kebab_char(c: char) -> char {
    if c == '_' {
        '-'
    } else {
        ascii_lower(c)
    }
}

/// What `to_kebab_case` writes for the character at index `i` of `s`: a `-` before an
/// uppercase character that is not the first one, then the character itself in ASCII
/// lowercase, with `_` turned into `-`.
pub open spec fn kebab_piece(s: Seq<char>, i: int) -> Seq<char> {
    if i > 0 && is_upper(s[i]) {
        seq!['-', kebab_char(s[i])]
    } else {
        seq![kebab_char(s[i])]
    }
}

/// The kebab-case form of the first `n` characters of `s`.
pub open spec fn kebab_prefix(s: Seq<char>, n: nat) -> Seq<char>
    decreases n,
{
    if n == 0 {
        seq![]
    } else {
        kebab_prefix(s, (n - 1) as nat) + kebab_piece(s, n - 1)
    }
}

/// The kebab-case form of `s`.
pub open spec fn kebab(s: Seq<char>) -> Seq<char> {
    kebab_prefix(s, s.len())
}

/// Converts `CamelCase` or `snake_case` to `kebab-case`: a `-` goes before every uppercase
/// character but the first, every character is lowercased (ASCII), and `_` becomes `-`.
pub fn to_kebab_case(s: String) -> (res: String)
    ensures
        res@ == kebab(s@),
{
    let v = chars_of(s.as_str());
    let mut res = String::new();
    let mut i: usize = 0;
    while i < v.len()
        invariant
            v@ == s@,
            i <= v.len(),
            res@ == kebab_prefix(s@, i as nat),
        decreases v.len() - i,
    {
        let ch = v[i];
        if i > 0 && char_is_uppercase(ch) {
            push_char(&mut res, '-');
        }
        let low = to_ascii_lowercase(ch);
        let out = if low == '_' {
            '-'
        } else {
            low
        };
        push_char(&mut res, out);
        proof {
            assert(ascii_lower('_') == '_');
        }
        i = i + 1;
        assert(res@ =~= kebab_prefix(s@, i as nat));
    }
    res
}

/// Whether the character at index `i` of `s` begins one of the `_`-separated pieces.
pub open spec fn starts_piece(s: Seq<char>, i: int) -> bool {
    i == 0 || s[i - 1] == '_'
}

/// The condition under which `snake_case_to_camel_case` returns: every `_`-separated piece
/// of the lowercased string is nonempty and begins with an ASCII character (otherwise the
/// byte slice `&s[..1]` of a piece panics).
pub open spec fn camel_ok(l: Seq<char>) -> bool {
    &&& l.len() > 0
    &&& forall|i: int| 0 <= i < l.len() && #[trigger] starts_piece(l, i) ==> l[i] != '_'
        && is_ascii_char(l[i])
    &&& l[l.len() - 1] != '_'
}

/// What `snake_case_to_camel_case` writes for the character at index `i` of the lowercased
/// string `l`: nothing for `_`, the ASCII uppercase of the first character of a piece, and
/// the character itself otherwise.
pub open spec fn camel_piece(l: Seq<char>, i: int) -> Seq<char> {
    if l[i] == '_' {
        seq![]
    } else if starts_piece(l, i) {
        seq![ascii_upper(l[i])]
    } else {
        seq![l[i]]
    }
}

/// The CamelCase form of the first `n` characters of the lowercased string `l`.
pub open spec fn camel_prefix(l: Seq<char>, n: nat) -> Seq<char>
    decreases n,
{
    if n == 0 {
        seq![]
    } else {
        camel_prefix(l, (n - 1) as nat) + camel_piece(l, n - 1)
    }
}

/// The CamelCase form of the lowercased string `l`: its `_`-separated pieces, each with its
/// first character in ASCII uppercase, joined with nothing between them.
pub open spec fn camel(l: Seq<char>) -> Seq<char> {
    camel_prefix(l, l.len())
}

fn camel_of_lowercase(l: &str) -> (res: String)
    requires
        camel_ok(l@),
    ensures
        res@ == camel(l@),
{
    let v = chars_of(l);
    let mut res = String::new();
    let mut i: usize = 0;
    while i < v.len()
        invariant
            v@ == l@,
            i <= v.len(),
            res@ == camel_prefix(l@, i as nat),
        decreases v.len() - i,
    {
        let c = v[i];
        if c != '_' {
            if i == 0 || v[i - 1] == '_' {
                push_char(&mut res, to_ascii_uppercase(c));
            } else {
                push_char(&mut res, c);
            }
        }
        i = i + 1;
        assert(res@ =~= camel_prefix(l@, i as nat));
    }
    res
}

fn camel_ok_exec(l: &str) -> (res: bool)
    ensures
        res == camel_ok(l@),
{
    let v = chars_of(l);
    let n = v.len();
    if n == 0 {
        return false;
    }
    if v[n - 1] == '_' {
        return false;
    }
    let mut i: usize = 0;
    while i < n
        invariant
            v@ == l@,
            n == v@.len(),
            i <= n,
            forall|k: int| 0 <= k < i && #[trigger] starts_piece(l@, k) ==> l@[k] != '_'
                && is_ascii_char(l@[k]),
        decreases n - i,
    {
        let c = v[i];
        if i == 0 || v[i - 1] == '_' {
            if c == '_' || !(c < '\u{80}') {
                assert(starts_piece(l@, i as int));
                return false;
            }
        }
        i = i + 1;
    }
    true
}

/// Converts `snake_case` to `CamelCase`: the string is lowercased, split at `_`, and the
/// first character of each piece is put in ASCII uppercase.
pub fn snake_case_to_camel_case(s: String) -> (res: String)
    requires
        camel_ok(lowercase(s@)),
    ensures
        res@ == camel(lowercase(s@)),
{
    let l = str_to_lowercase(s.as_str());
    camel_of_lowercase(l.as_str())
}

/// `snake_case_to_camel_case` on the inputs on which it returns, and `None` on those on
/// which it panics (an empty piece, or one that begins beyond ASCII, after lowercasing).
pub fn checked_snake_case_to_camel_case(s: String) -> (res: Option<String>)
    ensures
        res is Some <==> camel_ok(lowercase(s@)),
        res matches Some(r) ==> r@ == camel(lowercase(s@)),
{
    let l = str_to_lowercase(s.as_str());
    if camel_ok_exec(l.as_str()) {
        Some(snake_case_to_camel_case(s))
    } else {
        None
    }
}

} // verus!
