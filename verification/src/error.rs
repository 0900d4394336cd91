//! Why a derive refuses its input, and the outcome of a derive step on a given input.

use vstd::prelude::*;

verus! {

/// The reasons for which the derives refuse their input (each an `abort_call_site!`).
#[derive(Clone, Copy, PartialEq, Eq, Structural, Debug)]
pub enum DeriveError {
    /// An attribute held a token that is not a group, where a group was expected.
    OnlyGroupTokens,
    /// A type was not a path type.
    OnlyTypePath,
    /// A path type had no segment.
    OnlyPathSegment,
    /// An enum variant had named fields (`InteractiveClap`).
    OnlyUnnamedOrUnitFields,
    /// An enum variant had named fields (`ToCliArgs`).
    OnlyUnnamedOrUnitVariants,
    /// The item was a union.
    OnlyStructsAndEnums,
    /// `long_vec_multiple_opt` was put on a field whose type is not a `Vec`.
    LongVecMultipleOptNeedsVec,
}

/// The message that the derive reports when it refuses its input for the reason `e`.
pub open spec fn message_spec(e: DeriveError) -> Seq<char> {
    match e {
        DeriveError::OnlyGroupTokens => "Only option `TokenTree::Group` is needed"@,
        DeriveError::OnlyTypePath => "Only option `Type::Path` is needed"@,
        DeriveError::OnlyPathSegment => "Only option `PathSegment` is needed"@,
        DeriveError::OnlyUnnamedOrUnitFields =>
            "Only option `Fields::Unnamed` or `Fields::Unit` is needed"@,
        DeriveError::OnlyUnnamedOrUnitVariants =>
            "Only options `Fields::Unnamed` or `Fields::Unit` are needed"@,
        DeriveError::OnlyStructsAndEnums =>
            "`#[derive(InteractiveClap)]` only supports structs and enums"@,
        DeriveError::LongVecMultipleOptNeedsVec =>
            "`long_vec_multiple_opt` attribute is only supposed to be used with `Vec` types"@,
    }
}

impl DeriveError {
    /// The message that the derive reports.
    pub fn message(&self) -> (res: &'static str)
        ensures
            res@ == message_spec(*self),
    {
        match self {
            DeriveError::OnlyGroupTokens => "Only option `TokenTree::Group` is needed",
            DeriveError::OnlyTypePath => "Only option `Type::Path` is needed",
            DeriveError::OnlyPathSegment => "Only option `PathSegment` is needed",
            DeriveError::OnlyUnnamedOrUnitFields =>
                "Only option `Fields::Unnamed` or `Fields::Unit` is needed",
            DeriveError::OnlyUnnamedOrUnitVariants =>
                "Only options `Fields::Unnamed` or `Fields::Unit` are needed",
            DeriveError::OnlyStructsAndEnums =>
                "`#[derive(InteractiveClap)]` only supports structs and enums",
            DeriveError::LongVecMultipleOptNeedsVec =>
                "`long_vec_multiple_opt` attribute is only supposed to be used with `Vec` types",
        }
    }
}

/// What a derive step does on a given input: it gives a value, refuses the input, or panics.
pub enum Outcome<T> {
    Gives(T),
    Refuses(DeriveError),
    Panics,
}

/// Whether an answer that is `None` exactly where the step panics agrees with `o` on that.
pub open spec fn none_iff_panics<T, U>(o: Outcome<T>, r: Option<U>) -> bool {
    (r is None) <==> (o is Panics)
}

} // verus!
