# interactive_clap

Interactive command-line parsing on top of `clap`: when arguments are missing from the
command line, the user is asked for them.

The library (`src/`) holds what the `InteractiveClap` and `ToCliArgs` derives decide,
verified with Verus over a plain model of the derive input (`model`): which fields the
`Cli<Name>` type has and how they are declared, how the item converts into it, which
fields are prompted for and how, the context scope, `from_cli` for structs and enums,
`choose_variant`, the helper enum of a `named_arg` field, and which arguments
`to_cli_args` writes back. Each step that can refuse its input returns the reason
(`error::DeriveError`); the steps that would panic on some input say so in their
contracts, and `checked_*` companions report those inputs instead. `laws` states the
properties that tie the parts together.

`app/` reads `syn`'s derive input into the model, writes the library's decisions out as
tokens with `quote`, and holds the interactive selection helpers built on `dialoguer`.
