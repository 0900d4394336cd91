//! The helper enum of a struct with a `#[interactive_clap(named_arg)]` field:
//! `enum ClapNamedArg<Type>For<Name> { <FieldName>(<Type as ToCli>::CliVariant) }`, with
//! `impl From<Type>` for it.

use vstd::prelude::*;
use crate::model::{DeriveInput, Field};
use crate::error::{DeriveError, Outcome, none_iff_panics};
use crate::case::{camel, camel_ok, checked_snake_case_to_camel_case, lowercase};
use crate::cli_struct::{named_arg_enum, named_arg_enum_name};
use crate::context::strings_view;
use crate::field_attrs::{doc_attr_texts, doc_texts, ic_tokens};
use crate::tokens::{Probe, scan, scan_groups};
use crate::text::copy_str;

verus! {

/// The helper enum of a `named_arg` field.
#[derive(Debug)]
pub struct NamedArgEnum {
    /// `ClapNamedArg<Type>For<Name>`.
    pub enum_name: String,
    /// The field's name in CamelCase.
    pub variant_name: String,
    /// The field's doc comments, put on the variant.
    pub doc_attrs: Vec<String>,
    /// The field's type, printed.
    pub ty: String,
}

/// `NamedArgEnum` as plain sequences.
pub struct NamedArgEnumView {
    pub enum_name: Seq<char>,
    pub variant_name: Seq<char>,
    pub doc_attrs: Seq<Seq<char>>,
    pub ty: Seq<char>,
}

impl View for NamedArgEnum {
    type V = NamedArgEnumView;

    open spec fn view(&self) -> NamedArgEnumView {
        NamedArgEnumView {
            enum_name: self.enum_name@,
            variant_name: self.variant_name@,
            doc_attrs: strings_view(self.doc_attrs@),
            ty: self.ty@,
        }
    }
}

/// What the search for a helper enum does with a field, the groups being tested with `p`:
/// its name is put in CamelCase first (a panic when that fails), then its
/// `interactive_clap` groups are searched for one that passes `p` (a token that is not a
/// group, met before such a group, is refused).
pub open spec fn named_arg_transform_spec(name: Seq<char>, f: Field, p: Probe) -> Outcome<
    Option<NamedArgEnumView>,
> {
    match f.ident {
        None => Outcome::Panics,
        Some(id) => if !camel_ok(lowercase(id@)) {
            Outcome::Panics
        } else {
            match scan_groups(ic_tokens(f), p) {
                Err(_) => Outcome::Refuses(DeriveError::OnlyGroupTokens),
                Ok(false) => Outcome::Gives(None),
                Ok(true) => Outcome::Gives(
                    Some(
                        NamedArgEnumView {
                            enum_name: named_arg_enum_name(f.ty, name),
                            variant_name: camel(lowercase(id@)),
                            doc_attrs: doc_texts(f.attrs@),
                            ty: f.ty.text@,
                        },
                    ),
                ),
            }
        },
    }
}

/// What `field_transform` does with a field: the groups are tested for being exactly
/// `named_arg`.
pub open spec fn field_transform_spec(name: Seq<char>, f: Field) -> Outcome<Option<NamedArgEnumView>> {
    named_arg_transform_spec(name, f, Probe::Equals("named_arg"))
}

/// An optional helper enum as a view.
pub open spec fn opt_enum_view(o: Option<NamedArgEnum>) -> Option<NamedArgEnumView> {
    match o {
        Some(e) => Some(e@),
        None => None,
    }
}

/// Whether the exec outcome `r` is the outcome `o`.
pub open spec fn enum_outcome_is(o: Outcome<Option<NamedArgEnumView>>, r: Result<Option<NamedArgEnum>, DeriveError>) -> bool {
    match r {
        Ok(v) => o == Outcome::Gives(opt_enum_view(v)),
        Err(e) => o == Outcome::<Option<NamedArgEnumView>>::Refuses(e),
    }
}

/// The helper enum of `field` when one of its `interactive_clap` groups passes `p`; `None`
/// where the derive panics (the field has no name, or it cannot be put in CamelCase).
pub fn named_arg_transform(name: &str, field: &Field, p: &Probe) -> (res: Option<
    Result<Option<NamedArgEnum>, DeriveError>,
>)
    ensures
        none_iff_panics(named_arg_transform_spec(name@, *field, *p), res),
        res matches Some(r) ==> enum_outcome_is(named_arg_transform_spec(name@, *field, *p), r),
{
    let id: &String = match &field.ident {
        Some(s) => s,
        None => {
            return None;
        },
    };
    let variant_name = match checked_snake_case_to_camel_case(copy_str(id.as_str())) {
        Some(v) => v,
        None => {
            return None;
        },
    };
    let doc_attrs = doc_attr_texts(&field.attrs);
    match scan(&field.attrs, Some("interactive_clap"), p) {
        Err(_) => Some(Err(DeriveError::OnlyGroupTokens)),
        Ok(false) => Some(Ok(None)),
        Ok(true) => Some(
            Ok(
                Some(
                    NamedArgEnum {
                        enum_name: named_arg_enum(&field.ty, name),
                        variant_name,
                        doc_attrs,
                        ty: copy_str(field.ty.text.as_str()),
                    },
                ),
            ),
        ),
    }
}

/// The helper enum of `field` when it is a `named_arg` field.
fn field_transform(name: &str, field: &Field) -> (res: Result<Option<NamedArgEnum>, DeriveError>)
    requires
        !(field_transform_spec(name@, *field) is Panics),
    ensures
        enum_outcome_is(field_transform_spec(name@, *field), res),
{
    match named_arg_transform(name, field, &Probe::Equals("named_arg")) {
        Some(r) => r,
        None => Ok(None),
    }
}

/// The helper enum of the first field with a group that passes `p`; the fields before it
/// are each searched in turn, and the first refusal or panic among them is the outcome.
pub open spec fn first_named_arg_spec(name: Seq<char>, fields: Seq<Field>, p: Probe) -> Outcome<
    Option<NamedArgEnumView>,
>
    decreases fields.len(),
{
    if fields.len() == 0 {
        Outcome::Gives(None)
    } else {
        match named_arg_transform_spec(name, fields[0], p) {
            Outcome::Gives(None) => first_named_arg_spec(name, fields.drop_first(), p),
            o => o,
        }
    }
}

/// The helper enum of the first `named_arg` field, the groups being tested for being
/// exactly `named_arg`.
pub open spec fn named_arg_enum_spec(name: Seq<char>, fields: Seq<Field>) -> Outcome<Option<NamedArgEnumView>> {
    first_named_arg_spec(name, fields, Probe::Equals("named_arg"))
}

/// The helper enum of the first field with a group that passes `p`, if any; `None` where the
/// derive panics on a field searched before it.
pub fn first_named_arg(name: &str, fields: &Vec<Field>, p: &Probe) -> (res: Option<
    Result<Option<NamedArgEnum>, DeriveError>,
>)
    ensures
        none_iff_panics(first_named_arg_spec(name@, fields@, *p), res),
        res matches Some(r) ==> enum_outcome_is(first_named_arg_spec(name@, fields@, *p), r),
{
    let mut i: usize = 0;
    assert(fields@.skip(0) =~= fields@);
    while i < fields.len()
        invariant
            i <= fields.len(),
            first_named_arg_spec(name@, fields@, *p) == first_named_arg_spec(
                name@,
                fields@.skip(i as int),
                *p,
            ),
        decreases fields.len() - i,
    {
        assert(fields@.skip(i as int)[0] == fields@[i as int]);
        assert(fields@.skip(i as int).drop_first() =~= fields@.skip(i + 1));
        match named_arg_transform(name, &fields[i], p) {
            None => {
                return None;
            },
            Some(Err(e)) => {
                return Some(Err(e));
            },
            Some(Ok(Some(x))) => {
                return Some(Ok(Some(x)));
            },
            Some(Ok(None)) => {},
        }
        i = i + 1;
    }
    Some(Ok(None))
}

/// The helper enum of the struct's first `named_arg` field, if any.
pub fn token_stream(ast: &DeriveInput, fields: &Vec<Field>) -> (res: Result<Option<NamedArgEnum>, DeriveError>)
    requires
        !(named_arg_enum_spec(ast.ident@, fields@) is Panics),
    ensures
        enum_outcome_is(named_arg_enum_spec(ast.ident@, fields@), res),
{
    let name = ast.ident.as_str();
    let mut i: usize = 0;
    assert(fields@.skip(0) =~= fields@);
    while i < fields.len()
        invariant
            i <= fields.len(),
            name@ == ast.ident@,
            named_arg_enum_spec(ast.ident@, fields@) == named_arg_enum_spec(
                ast.ident@,
                fields@.skip(i as int),
            ),
            !(named_arg_enum_spec(ast.ident@, fields@) is Panics),
        decreases fields.len() - i,
    {
        assert(fields@.skip(i as int)[0] == fields@[i as int]);
        assert(fields@.skip(i as int).drop_first() =~= fields@.skip(i + 1));
        match field_transform(name, &fields[i]) {
            Err(e) => {
                return Err(e);
            },
            Ok(Some(x)) => {
                return Ok(Some(x));
            },
            Ok(None) => {},
        }
        i = i + 1;
    }
    Ok(None)
}

/// The helper enum of the struct's first `named_arg` field where the derive returns, and
/// `None` where it panics (a field searched cannot be put in CamelCase).
pub fn checked_token_stream(ast: &DeriveInput, fields: &Vec<Field>) -> (res: Option<
    Result<Option<NamedArgEnum>, DeriveError>,
>)
    ensures
        none_iff_panics(named_arg_enum_spec(ast.ident@, fields@), res),
        res matches Some(r) ==> enum_outcome_is(named_arg_enum_spec(ast.ident@, fields@), r),
{
    match first_named_arg(ast.ident.as_str(), fields, &Probe::Equals("named_arg")) {
        None => None,
        Some(_) => Some(token_stream(ast, fields)),
    }
}

} // verus!
