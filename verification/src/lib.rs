//! Interactive command-line parsing on top of `clap`: when arguments are missing from the
//! command line, the user is asked for them interactively.
//!
//! This crate holds the decisions behind the `InteractiveClap` and `ToCliArgs` derives,
//! taken over a plain model of the derive input, together with the traits that the
//! generated code implements.

use vstd::prelude::*;

pub mod text;
pub mod case;
pub mod model;
pub mod tokens;
pub mod error;
pub mod field_attrs;
pub mod cli_args;
pub mod context;
pub mod cli_struct;
pub mod structs;
pub mod scope;
pub mod input_args;
pub mod choose_variant;
pub mod from_cli;
pub mod classic;
pub mod methods;
pub mod common_methods;
pub mod interactive_clap_item;
pub mod common;
pub mod laws;
pub mod doc_laws;
pub mod plan_laws;

verus! {

/// A type that can be given on the command line: [`Self::CliVariant`] is the form in which
/// `clap` parses it, which may be incomplete. The `InteractiveClap` derive defines it as
/// the generated `Cli<Name>` type.
pub trait ToCli {
    type CliVariant;
}

impl ToCli for String {
    type CliVariant = String;
}

impl ToCli for u128 {
    type CliVariant = u128;
}

impl ToCli for u64 {
    type CliVariant = u64;
}

impl ToCli for bool {
    type CliVariant = bool;
}

/// The scope that carries the values read so far: a struct of the fields read before a
/// subcommand, or the discriminants of an enum.
pub trait ToInteractiveClapContextScope {
    type InteractiveClapContextScope;
}

/// Turns a value back into the command-line arguments that would produce it.
pub trait ToCliArgs {
    fn to_cli_args(&self) -> std::collections::VecDeque<String>;
}

/// The result of reading a value from the command line and, where it is incomplete, from
/// the user: the value read (`Done`), a cancellation (with what was read so far), a step
/// back, or an error (`Failed`, with what was read so far).
pub enum ResultFromCli<T, E> {
    Done(T),
    Cancel(Option<T>),
    Back,
    Failed(Option<T>, E),
}

impl<T, E> ResultFromCli<T, E> {
    /// The same result, with each value it carries (the value read, or what was read so far
    /// of a cancelled or failed read) turned by `wrap`; `Back`, and a cancellation or error
    /// that carries nothing, stay as they are. The `from_cli` that the derive writes for an
    /// enum passes the result of a variant's content on through this, with the variant of
    /// `Cli<Name>` as `wrap`.
    pub fn map_cli<U, F: Fn(T) -> U>(self, wrap: F) -> (res: ResultFromCli<U, E>)
        requires
            forall|x: T| call_requires(wrap, (x,)),
        ensures
            match self {
                ResultFromCli::Done(x) => res matches ResultFromCli::Done(y) && call_ensures(wrap, (x,), y),
                ResultFromCli::Cancel(None) => res matches ResultFromCli::Cancel(None),
                ResultFromCli::Cancel(Some(x)) => res matches ResultFromCli::Cancel(Some(y))
                    && call_ensures(wrap, (x,), y),
                ResultFromCli::Back => res is Back,
                ResultFromCli::Failed(None, e) => res matches ResultFromCli::Failed(None, e2) && e2 == e,
                ResultFromCli::Failed(Some(x), e) => res matches ResultFromCli::Failed(Some(y), e2) && e2
                    == e && call_ensures(wrap, (x,), y),
            },
    {
        match self {
            ResultFromCli::Done(x) => ResultFromCli::Done(wrap(x)),
            ResultFromCli::Cancel(None) => ResultFromCli::Cancel(None),
            ResultFromCli::Cancel(Some(x)) => ResultFromCli::Cancel(Some(wrap(x))),
            ResultFromCli::Back => ResultFromCli::Back,
            ResultFromCli::Failed(None, e) => ResultFromCli::Failed(None, e),
            ResultFromCli::Failed(Some(x), e) => ResultFromCli::Failed(Some(wrap(x)), e),
        }
    }
}

/// Completes a value parsed from the command line by asking the user for what is missing.
pub trait FromCli {
    type FromCliContext;
    type FromCliError;

    fn from_cli(
        optional_clap_variant: Option<<Self as ToCli>::CliVariant>,
        context: Self::FromCliContext,
    ) -> ResultFromCli<<Self as ToCli>::CliVariant, Self::FromCliError> where Self: Sized + ToCli;
}

} // verus!
