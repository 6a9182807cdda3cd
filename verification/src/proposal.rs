//! Proposals: a ballot number paired with the value it carries.

use vstd::prelude::*;

use crate::id::ProposalId;

verus! {

/// A proposal is a message sent by a **proposer** to the **acceptors**,
/// containing the id of the proposal and a value. Immutable once created.
#[derive(Clone, Copy, Debug, PartialEq, Eq, Structural)]
pub struct Proposal {
    pub id: ProposalId,
    pub value: u64,
}

impl Proposal {
    pub fn new(value: u64, id: ProposalId) -> (p: Proposal)
        ensures
            p == (Proposal { id, value }),
    {
        Proposal { value, id }
    }
}

} // verus!
