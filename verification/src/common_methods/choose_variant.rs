//! `choose_variant` of an enum, in the form shared by the current derive's parts.

use vstd::prelude::*;
use crate::model::{DeriveInput, Variant};
use crate::error::DeriveError;
use crate::context::context_ok;
use crate::choose_variant::{ChooseVariantPlan, ChooseVersion, choose_variant, choose_variant_spec};

verus! {

/// `choose_variant`: a selection over the discriminants when the enum has
/// `#[strum_discriminants(derive(EnumMessage, EnumIter))]`, spaces aside, prompted with the
/// concatenated literals of its doc comments; an empty body otherwise.
pub fn fn_choose_variant(ast: &DeriveInput, variants: &Vec<Variant>) -> (res: Result<
    ChooseVariantPlan,
    DeriveError,
>)
    requires
        context_ok(*ast),
    ensures
        choose_variant_spec(*ast, variants@, ChooseVersion::Common) == match res {
            Ok(p) => Ok(p@),
            Err(e) => Err(e),
        },
{
    choose_variant(ast, variants, ChooseVersion::Common)
}

} // verus!
