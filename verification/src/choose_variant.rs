//! `choose_variant` of an enum: the interactive selection of a variant among the
//! discriminants that `strum` derives, with an optional "back" entry.

use vstd::prelude::*;
use crate::model::{DeriveInput, Variant, VariantFields};
use crate::error::{DeriveError, Outcome};
use crate::context::{ContextDir, ContextDirView, InteractiveClapAttrsContext, context_ok,
    context_spec, input_context_spec};
use crate::field_attrs::{doc_attr_literals, doc_literals};
use crate::input_args::{Prompt, PromptView, classic_prompt, classic_prompt_spec};
use crate::tokens::{Probe, any_group, any_group_passes, tokens_of};
use crate::scope::discriminants_spec;
use crate::text::{concat2, copy_str};

verus! {

/// A variant offered for selection: the `Cli...` value it stands for is the variant itself
/// (unit variant) or the variant with `Default::default()` inside (tuple variant).
#[derive(Debug)]
pub struct VariantChoice {
    pub ident: String,
    pub has_arg: bool,
}

/// `VariantChoice` as plain sequences.
pub struct VariantChoiceView {
    pub ident: Seq<char>,
    pub has_arg: bool,
}

impl View for VariantChoice {
    type V = VariantChoiceView;

    open spec fn view(&self) -> VariantChoiceView {
        VariantChoiceView { ident: self.ident@, has_arg: self.has_arg }
    }
}

/// The views of a run of variant choices.
pub open spec fn choice_views(v: Seq<VariantChoice>) -> Seq<VariantChoiceView> {
    v.map_values(|c: VariantChoice| c@)
}

/// The selection: `inquire::Select` over `<Name>Discriminants::iter()`, with "back" as a
/// last entry unless it is disabled, mapped to the `Cli<Name>` variant chosen.
#[derive(Debug)]
pub struct SelectPlan {
    pub prompt: Prompt,
    pub back: bool,
    pub discriminants: String,
    pub cli_command: String,
    pub variants: Vec<VariantChoice>,
}

/// `SelectPlan` as plain sequences.
pub struct SelectPlanView {
    pub prompt: PromptView,
    pub back: bool,
    pub discriminants: Seq<char>,
    pub cli_command: Seq<char>,
    pub variants: Seq<VariantChoiceView>,
}

impl View for SelectPlan {
    type V = SelectPlanView;

    open spec fn view(&self) -> SelectPlanView {
        SelectPlanView {
            prompt: self.prompt@,
            back: self.back,
            discriminants: self.discriminants@,
            cli_command: self.cli_command@,
            variants: choice_views(self.variants@),
        }
    }
}

/// The variants as choices, in order; a variant with named fields is refused.
pub open spec fn choices_spec(vs: Seq<Variant>) -> Result<Seq<VariantChoiceView>, DeriveError>
    decreases vs.len(),
{
    if vs.len() == 0 {
        Ok(seq![])
    } else {
        match vs[0].fields {
            VariantFields::Named => Err(DeriveError::OnlyUnnamedOrUnitFields),
            _ => match choices_spec(vs.drop_first()) {
                Err(e) => Err(e),
                Ok(rest) => Ok(
                    seq![VariantChoiceView { ident: vs[0].ident@, has_arg: vs[0].fields is Unnamed }]
                        + rest,
                ),
            },
        }
    }
}

/// The variants as choices, in order.
pub fn choices(vs: &Vec<Variant>) -> (res: Result<Vec<VariantChoice>, DeriveError>)
    ensures
        choices_spec(vs@) == match res {
            Ok(v) => Ok(choice_views(v@)),
            Err(e) => Err(e),
        },
{
    let mut out: Vec<VariantChoice> = Vec::new();
    let mut i: usize = 0;
    assert(vs@.skip(0) =~= vs@);
    while i < vs.len()
        invariant
            i <= vs.len(),
            choices_spec(vs@) == match choices_spec(vs@.skip(i as int)) {
                Err(e) => Err(e),
                Ok(rest) => Ok(choice_views(out@) + rest),
            },
        decreases vs.len() - i,
    {
        assert(vs@.skip(i as int)[0] == vs@[i as int]);
        assert(vs@.skip(i as int).drop_first() =~= vs@.skip(i + 1));
        let ghost before = choice_views(out@);
        let has_arg = match &vs[i].fields {
            VariantFields::Named => {
                return Err(DeriveError::OnlyUnnamedOrUnitFields);
            },
            VariantFields::Unnamed(_) => true,
            VariantFields::Unit => false,
        };
        out.push(VariantChoice { ident: copy_str(vs[i].ident.as_str()), has_arg });
        proof {
            let x = out@.last()@;
            assert(choice_views(out@) =~= before.push(x));
            if let Ok(rest) = choices_spec(vs@.skip(i + 1)) {
                assert(before + (seq![x] + rest) =~= before.push(x) + rest);
            }
        }
        i = i + 1;
    }
    assert(vs@.skip(i as int).len() == 0);
    assert(choice_views(out@) + Seq::<VariantChoiceView>::empty() =~= choice_views(out@));
    Ok(out)
}

/// Which version of `choose_variant` is meant.
#[derive(Clone, Copy, PartialEq, Eq, Structural, Debug)]
pub enum ChooseVersion {
    /// `methods::choose_variant`: the `strum_discriminants` attribute must read exactly
    /// `derive(EnumMessage, EnumIter)`, and the prompt joins the doc comments.
    Methods,
    /// `common_methods::choose_variant`: spaces in the attribute do not matter, and the
    /// prompt concatenates the doc comments' literals.
    Common,
}

/// What `choose_variant` is made of: the context type, and the selection when the enum has
/// `#[strum_discriminants(derive(EnumMessage, EnumIter))]` (an empty body otherwise).
#[derive(Debug)]
pub struct ChooseVariantPlan {
    pub context: ContextDir,
    pub select: Option<SelectPlan>,
}

/// `ChooseVariantPlan` as plain sequences.
pub struct ChooseVariantPlanView {
    pub context: ContextDirView,
    pub select: Option<SelectPlanView>,
}

impl View for ChooseVariantPlan {
    type V = ChooseVariantPlanView;

    open spec fn view(&self) -> ChooseVariantPlanView {
        ChooseVariantPlanView {
            context: self.context@,
            select: match self.select {
                Some(s) => Some(s@),
                None => None,
            },
        }
    }
}

/// Whether the enum derives `EnumMessage` and `EnumIter` for its discriminants.
pub open spec fn has_strum(ast: DeriveInput, v: ChooseVersion) -> bool {
    any_group_passes(
        tokens_of(ast.attrs@, Some("strum_discriminants"@)),
        if v == ChooseVersion::Methods {
            Probe::Equals("derive(EnumMessage, EnumIter)")
        } else {
            Probe::EqualsWithoutSpaces("derive(EnumMessage,EnumIter)")
        },
    )
}

/// Whether an `interactive_clap` group of the enum mentions `disable_back`.
pub open spec fn disables_back(ast: DeriveInput) -> bool {
    any_group_passes(tokens_of(ast.attrs@, Some("interactive_clap"@)), Probe::Contains("disable_back"))
}

/// What `choose_variant` is made of, for an enum with the variants `vs`.
pub open spec fn choose_variant_spec(ast: DeriveInput, vs: Seq<Variant>, v: ChooseVersion) -> Result<
    ChooseVariantPlanView,
    DeriveError,
> {
    let context = input_context_spec(context_spec(ast));
    if has_strum(ast, v) {
        match choices_spec(vs) {
            Err(e) => Err(e),
            Ok(cs) => Ok(
                ChooseVariantPlanView {
                    context,
                    select: Some(
                        SelectPlanView {
                            prompt: if v == ChooseVersion::Methods {
                                PromptView::Text(classic_prompt_spec(ast.attrs@))
                            } else {
                                PromptView::DocLiterals(doc_literals(ast.attrs@))
                            },
                            back: !disables_back(ast),
                            discriminants: discriminants_spec(ast.ident@),
                            cli_command: "Cli"@ + ast.ident@,
                            variants: cs,
                        },
                    ),
                },
            ),
        }
    } else {
        Ok(ChooseVariantPlanView { context, select: None })
    }
}

/// `choose_variant` for an enum with the variants `variants`, in the given version.
pub fn choose_variant(ast: &DeriveInput, variants: &Vec<Variant>, v: ChooseVersion) -> (res: Result<
    ChooseVariantPlan,
    DeriveError,
>)
    requires
        context_ok(*ast),
    ensures
        choose_variant_spec(*ast, variants@, v) == match res {
            Ok(p) => Ok(p@),
            Err(e) => Err(e),
        },
{
    let c = InteractiveClapAttrsContext::new(ast);
    let disable_back = any_group(&ast.attrs, Some("interactive_clap"), &Probe::Contains("disable_back"));
    let strum = if v == ChooseVersion::Methods {
        any_group(&ast.attrs, Some("strum_discriminants"), &Probe::Equals("derive(EnumMessage, EnumIter)"))
    } else {
        any_group(
            &ast.attrs,
            Some("strum_discriminants"),
            &Probe::EqualsWithoutSpaces("derive(EnumMessage,EnumIter)"),
        )
    };
    let select = if strum {
        let prompt = if v == ChooseVersion::Methods {
            Prompt::Text(classic_prompt(&ast.attrs))
        } else {
            Prompt::DocLiterals(doc_attr_literals(&ast.attrs))
        };
        let cs = choices(variants)?;
        Some(
            SelectPlan {
                prompt,
                back: !disable_back,
                discriminants: concat2(ast.ident.as_str(), "Discriminants"),
                cli_command: concat2("Cli", ast.ident.as_str()),
                variants: cs,
            },
        )
    } else {
        None
    };
    Ok(ChooseVariantPlan { context: c.get_input_context_dir(), select })
}

} // verus!
