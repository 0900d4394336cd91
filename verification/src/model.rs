//! A plain model of what the derives read from their input: attributes with their tokens,
//! types with their path segments, fields, variants, and the item itself.

use vstd::prelude::*;

verus! {

/// The kind of a token tree.
#[derive(Clone, Copy, PartialEq, Eq, Structural, Debug)]
pub enum TokenKind {
    Group,
    Ident,
    Punct,
    Literal,
}

/// A token tree inside a group, by its kind and its printed text.
#[derive(Debug)]
pub struct Token {
    pub kind: TokenKind,
    pub text: String,
}

/// A token tree of an attribute's token stream (what follows the attribute's path).
#[derive(Debug)]
pub struct AttrToken {
    pub kind: TokenKind,
    /// The token tree printed as a whole (for a group, with its delimiters).
    pub text: String,
    /// For a group: the stream between its delimiters, printed; empty otherwise.
    pub stream: String,
    /// For a group: the token trees between its delimiters; empty otherwise.
    pub items: Vec<Token>,
}

/// An attribute `#[path tokens]`.
#[derive(Debug)]
pub struct Attr {
    /// The path when it is a single identifier (`doc`, `clap`, `interactive_clap`, ...).
    pub path: Option<String>,
    pub tokens: Vec<AttrToken>,
    /// The whole attribute printed, `#[...]` included.
    pub text: String,
}

/// A segment of a type path, such as `Option<u64>` in `std::option::Option<u64>`.
#[derive(Debug)]
pub struct Segment {
    pub ident: String,
    /// The generic arguments printed, when they are given in angle brackets.
    pub angle_args: Option<String>,
}

/// A type, printed, with its path segments when it is a path type.
#[derive(Debug)]
pub struct Ty {
    pub text: String,
    pub segments: Option<Vec<Segment>>,
}

/// A field of a struct; `ident` is `None` for a field of a tuple struct.
#[derive(Debug)]
pub struct Field {
    pub ident: Option<String>,
    pub ty: Ty,
    pub attrs: Vec<Attr>,
}

/// The fields of an enum variant.
#[derive(Debug)]
pub enum VariantFields {
    Unit,
    /// A tuple variant, with the types of its fields.
    Unnamed(Vec<Ty>),
    Named,
}

/// An enum variant.
#[derive(Debug)]
pub struct Variant {
    pub ident: String,
    pub attrs: Vec<Attr>,
    pub fields: VariantFields,
}

/// The body of the item that a derive is applied to.
#[derive(Debug)]
pub enum Data {
    Struct(Vec<Field>),
    Enum(Vec<Variant>),
    Union,
}

/// The item that a derive is applied to.
#[derive(Debug)]
pub struct DeriveInput {
    pub ident: String,
    pub attrs: Vec<Attr>,
    pub data: Data,
}

/// Whether the attribute's path is the single identifier `name`.
pub open spec fn path_is(a: Attr, name: Seq<char>) -> bool {
    a.path matches Some(p) && p@ == name
}

/// The first path segment of a path type.
pub open spec fn first_segment(t: Ty) -> Option<Segment> {
    match t.segments {
        Some(segs) => if segs@.len() > 0 { Some(segs@[0]) } else { None },
        None => None,
    }
}

/// The last path segment of a path type.
pub open spec fn last_segment(t: Ty) -> Option<Segment> {
    match t.segments {
        Some(segs) => if segs@.len() > 0 { Some(segs@.last()) } else { None },
        None => None,
    }
}

/// The identifier of the last path segment of the type, or nothing when it has none.
pub open spec fn last_segment_name(t: Ty) -> Seq<char> {
    match last_segment(t) {
        Some(s) => s.ident@,
        None => seq![],
    }
}

/// Whether the type is a path whose first segment is `Vec`.
pub open spec fn starts_with_vec_spec(t: Ty) -> bool {
    first_segment(t) matches Some(s) && s.ident@ == "Vec"@
}

/// Whether the attribute's path is the single identifier `name`.
pub fn attr_path_is(a: &Attr, name: &str) -> (res: bool)
    ensures
        res == path_is(*a, name@),
{
    match &a.path {
        Some(p) => crate::text::str_eq(p.as_str(), name),
        None => false,
    }
}

/// The identifier of the first path segment of the type, when it is a path with segments.
pub fn first_segment_ident(t: &Ty) -> (res: Option<&String>)
    ensures
        res matches Some(r) ==> first_segment(*t) matches Some(s) && *r == s.ident,
        res is None ==> first_segment(*t) is None,
{
    match &t.segments {
        Some(segs) => if segs.len() > 0 {
            Some(&segs[0].ident)
        } else {
            None
        },
        None => None,
    }
}

/// The identifier of the last path segment of the type, or an empty string.
pub fn last_segment_string(t: &Ty) -> (res: String)
    ensures
        res@ == last_segment_name(*t),
{
    match &t.segments {
        Some(segs) => if segs.len() > 0 {
            crate::text::copy_str(segs[segs.len() - 1].ident.as_str())
        } else {
            String::new()
        },
        None => String::new(),
    }
}

/// Whether the type is a path whose first segment is `Vec` (the check that
/// `long_vec_multiple_opt` makes of a field's type).
pub fn type_starts_with_vec(ty: &Ty) -> (res: bool)
    ensures
        res == starts_with_vec_spec(*ty),
{
    match first_segment_ident(ty) {
        Some(id) => crate::text::str_eq(id.as_str(), "Vec"),
        None => false,
    }
}

/// The same check as `type_starts_with_vec`, under the name the field-type helpers use.
pub fn starts_with_vec(ty: &Ty) -> (res: bool)
    ensures
        res == starts_with_vec_spec(*ty),
{
    type_starts_with_vec(ty)
}

} // verus!
