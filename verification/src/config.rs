//! Run configuration: scalar parameters of a simulation run.

use vstd::prelude::*;

verus! {

/// Parameters of a run: how many acceptor nodes take part and how many
/// client values are proposed. Command-line parsing happens outside the
/// engine and hands over this plain pair.
#[derive(Clone, Copy, Debug, PartialEq, Eq, Structural)]
pub struct Args {
    /// Number of nodes in the simulation.
    pub nodes: usize,
    /// Number of rounds.
    pub rounds: usize,
}

impl Default for Args {
    /// Three acceptors and ten rounds, as the command line assumes when no
    /// flags are given.
    fn default() -> (args: Args)
        ensures
            args == (Args { nodes: 3, rounds: 10 }),
    {
        Args { nodes: 3, rounds: 10 }
    }
}

} // verus!
