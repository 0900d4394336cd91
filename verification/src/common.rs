//! Items shared by programs that use the library: the network to connect to, and the
//! labels of an interactive selection among the variants of an enum.

use vstd::prelude::*;
use crate::text::copy_str;

verus! {

/// The network a command connects to.
#[derive(Debug, Clone)]
pub enum ConnectionConfig {
    Testnet,
    Mainnet,
    Betanet,
}

/// The labels of a selection among variants, in order: each variant's message, or
/// a text that says so for a variant without one.
pub open spec fn labels_spec(messages: Seq<Option<Seq<char>>>) -> Seq<Seq<char>> {
    messages.map_values(
        |m: Option<Seq<char>>|
            match m {
                Some(s) => s,
                None => "error[This entry does not have an option message!!]"@,
            },
    )
}

/// An optional message as a sequence.
pub open spec fn message_view(m: Option<String>) -> Option<Seq<char>> {
    match m {
        Some(s) => Some(s@),
        None => None,
    }
}

/// The labels of a selection among variants whose messages are `messages`.
pub fn prompt_labels(messages: &Vec<Option<String>>) -> (res: Vec<String>)
    ensures
        res@.map_values(|s: String| s@) == labels_spec(messages@.map_values(|m: Option<String>| message_view(m))),
{
    let ghost ms = messages@.map_values(|m: Option<String>| message_view(m));
    let mut out: Vec<String> = Vec::new();
    let mut i: usize = 0;
    while i < messages.len()
        invariant
            i <= messages.len(),
            ms == messages@.map_values(|m: Option<String>| message_view(m)),
            out@.map_values(|s: String| s@) == labels_spec(ms).take(i as int),
        decreases messages.len() - i,
    {
        let ghost before = out@.map_values(|s: String| s@);
        let label = match &messages[i] {
            Some(m) => copy_str(m.as_str()),
            None => copy_str("error[This entry does not have an option message!!]"),
        };
        assert(ms[i as int] == message_view(messages@[i as int]));
        assert(label@ == labels_spec(ms)[i as int]);
        out.push(label);
        assert(out@.map_values(|s: String| s@) =~= before.push(label@));
        assert(labels_spec(ms).take(i + 1) =~= labels_spec(ms).take(i as int).push(labels_spec(ms)[i as int]));
        i = i + 1;
    }
    assert(labels_spec(ms).take(i as int) =~= labels_spec(ms));
    out
}

} // verus!
