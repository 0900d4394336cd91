//! `try_parse`, `parse` and `try_parse_from` on the input struct, returning its `Cli...`
//! struct through `clap::Parser`.

use vstd::prelude::*;
use crate::text::copy_str;

verus! {

/// The names that the adapter is written with.
#[derive(Debug)]
pub struct ClapParserAdapter {
    pub name: String,
    pub cli_name: String,
}

/// The adapter for the struct `name` and its `Cli...` struct `cli_name`.
pub fn token_stream(name: &str, cli_name: &str) -> (res: ClapParserAdapter)
    ensures
        res.name@ == name@,
        res.cli_name@ == cli_name@,
{
    ClapParserAdapter { name: copy_str(name), cli_name: copy_str(cli_name) }
}

} // verus!
