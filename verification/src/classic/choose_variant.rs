//! `choose_variant` of an enum in the classic derive.

use vstd::prelude::*;
use crate::model::{DeriveInput, Variant, VariantFields};
use crate::error::DeriveError;
use crate::choose_variant::{SelectPlan, SelectPlanView, VariantChoice, VariantChoiceView, choices,
    choices_spec};
use crate::context::{ContextDir, ContextDirView, InteractiveClapAttrsContext, context_ok,
    context_spec, input_context_spec};
use crate::input_args::{Prompt, PromptView, classic_prompt, classic_prompt_spec};
use crate::scope::discriminants_spec;
use crate::tokens::{Probe, any_group, any_group_passes, tokens_of};
use crate::text::{concat2, copy_str};

verus! {

/// The body of `choose_variant` in the classic derive.
#[derive(Debug)]
pub enum ClassicChoice {
    /// No selection is written.
    Nothing,
    /// With `disable_strum_discriminants`: the first variant is taken without asking.
    First(VariantChoice),
    /// A selection among the discriminants.
    Select(SelectPlan),
}

/// `ClassicChoice` as plain sequences.
pub enum ClassicChoiceView {
    Nothing,
    First(VariantChoiceView),
    Select(SelectPlanView),
}

impl View for ClassicChoice {
    type V = ClassicChoiceView;

    open spec fn view(&self) -> ClassicChoiceView {
        match self {
            ClassicChoice::Nothing => ClassicChoiceView::Nothing,
            ClassicChoice::First(c) => ClassicChoiceView::First(c@),
            ClassicChoice::Select(s) => ClassicChoiceView::Select(s@),
        }
    }
}

/// `choose_variant` in the classic derive: the context type and the body.
#[derive(Debug)]
pub struct ClassicChooseVariantPlan {
    pub context: ContextDir,
    pub body: ClassicChoice,
}

/// `ClassicChooseVariantPlan` as plain sequences.
pub struct ClassicChooseVariantView {
    pub context: ContextDirView,
    pub body: ClassicChoiceView,
}

impl View for ClassicChooseVariantPlan {
    type V = ClassicChooseVariantView;

    open spec fn view(&self) -> ClassicChooseVariantView {
        ClassicChooseVariantView { context: self.context@, body: self.body@ }
    }
}

/// `choose_variant` in the classic derive. With `disable_strum_discriminants` the first variant
/// is taken (one with named fields is refused); else, with the `strum` derive of
/// `EnumMessage` and `EnumIter`, a selection prompted with the joined doc comments, with a
/// "back" entry unless a group mentions `disable_back`; else nothing.
pub open spec fn classic_choose_variant_spec(ast: DeriveInput, vs: Seq<Variant>) -> Result<
    ClassicChooseVariantView,
    DeriveError,
> {
    let context = input_context_spec(context_spec(ast));
    let ic = tokens_of(ast.attrs@, Some("interactive_clap"@));
    if any_group_passes(ic, Probe::Contains("disable_strum_discriminants")) {
        match vs[0].fields {
            VariantFields::Named => Err(DeriveError::OnlyUnnamedOrUnitFields),
            _ => Ok(
                ClassicChooseVariantView {
                    context,
                    body: ClassicChoiceView::First(
                        VariantChoiceView { ident: vs[0].ident@, has_arg: vs[0].fields is Unnamed },
                    ),
                },
            ),
        }
    } else if any_group_passes(
        tokens_of(ast.attrs@, Some("strum_discriminants"@)),
        Probe::Equals("derive(EnumMessage, EnumIter)"),
    ) {
        match choices_spec(vs) {
            Err(e) => Err(e),
            Ok(cs) => Ok(
                ClassicChooseVariantView {
                    context,
                    body: ClassicChoiceView::Select(
                        SelectPlanView {
                            prompt: PromptView::Text(classic_prompt_spec(ast.attrs@)),
                            back: !any_group_passes(
                                ic,
                                Probe::ContainsBut("disable_back", "disable_strum_discriminants"),
                            ),
                            discriminants: discriminants_spec(ast.ident@),
                            cli_command: "Cli"@ + ast.ident@,
                            variants: cs,
                        },
                    ),
                },
            ),
        }
    } else {
        Ok(ClassicChooseVariantView { context, body: ClassicChoiceView::Nothing })
    }
}

/// `choose_variant` in the classic derive, for an enum with at least one variant (the first
/// variant is read up front).
pub fn fn_choose_variant(ast: &DeriveInput, variants: &Vec<Variant>) -> (res: Result<
    ClassicChooseVariantPlan,
    DeriveError,
>)
    requires
        context_ok(*ast),
        variants@.len() > 0,
    ensures
        classic_choose_variant_spec(*ast, variants@) == match res {
            Ok(p) => Ok(p@),
            Err(e) => Err(e),
        },
{
    let c = InteractiveClapAttrsContext::new(ast);
    let disable_strum = any_group(
        &ast.attrs,
        Some("interactive_clap"),
        &Probe::Contains("disable_strum_discriminants"),
    );
    let body = if disable_strum {
        let has_arg = match &variants[0].fields {
            VariantFields::Named => {
                return Err(DeriveError::OnlyUnnamedOrUnitFields);
            },
            VariantFields::Unnamed(_) => true,
            VariantFields::Unit => false,
        };
        ClassicChoice::First(VariantChoice { ident: copy_str(variants[0].ident.as_str()), has_arg })
    } else if any_group(
        &ast.attrs,
        Some("strum_discriminants"),
        &Probe::Equals("derive(EnumMessage, EnumIter)"),
    ) {
        let back = !any_group(
            &ast.attrs,
            Some("interactive_clap"),
            &Probe::ContainsBut("disable_back", "disable_strum_discriminants"),
        );
        let prompt = Prompt::Text(classic_prompt(&ast.attrs));
        let cs = choices(variants)?;
        ClassicChoice::Select(
            SelectPlan {
                prompt,
                back,
                discriminants: concat2(ast.ident.as_str(), "Discriminants"),
                cli_command: concat2("Cli", ast.ident.as_str()),
                variants: cs,
            },
        )
    } else {
        ClassicChoice::Nothing
    };
    Ok(ClassicChooseVariantPlan { context: c.get_input_context_dir(), body })
}

} // verus!
