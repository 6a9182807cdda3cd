//! The closed vocabulary of protocol messages.

use vstd::prelude::*;

use crate::id::ProposalId;

verus! {

/// The sender and ballot of a prepare-phase or acknowledgement message.
#[derive(Clone, Copy, Debug, PartialEq, Eq, Structural)]
pub struct MessageMetadata {
    pub issuer_id: u64,
    pub proposal_id: ProposalId,
}

/// The payload of an accept request: sender, ballot and the value to accept.
#[derive(Clone, Copy, Debug, PartialEq, Eq, Structural)]
pub struct AcceptPhaseBody {
    pub issuer_id: u64,
    pub proposal_id: ProposalId,
    pub value: u64,
}

/// An acceptor's notification to the learner that it accepted a value.
#[derive(Clone, Copy, Debug, PartialEq, Eq, Structural)]
pub struct LearnMessage {
    pub value: u64,
    pub node_id: u64,
    pub proposal_id: ProposalId,
}

/// Every message the protocol exchanges.
#[derive(Clone, Copy, Debug, PartialEq, Eq, Structural)]
pub enum Message {
    /// Sent by the client and received by the proposer node, carrying a new
    /// value to bring to consensus.
    ClientRequest { value: u64 },
    /// Sent by the proposer to all the acceptors. It is the first exchange
    /// of the protocol.
    PrepareRequest { metadata: MessageMetadata },
    /// Sent by an acceptor, echoing the most recent proposal id it has
    /// promised.
    PrepareResponse { metadata: MessageMetadata },
    /// Sent by the proposer to all acceptors, asking them to accept a value.
    AcceptRequest { body: AcceptPhaseBody },
    /// Sent by an acceptor if and only if it accepted the value.
    AcceptResponse { metadata: MessageMetadata },
    /// Sent by an acceptor to the learner when it accepts a value.
    LearnNotify { notify: LearnMessage },
}

impl Message {
    pub fn new_prepare(issuer_id: u64, proposal_id: ProposalId) -> (m: Message)
        ensures
            m == (Message::PrepareRequest {
                metadata: MessageMetadata { issuer_id, proposal_id },
            }),
    {
        Message::PrepareRequest { metadata: MessageMetadata { issuer_id, proposal_id } }
    }

    pub fn new_accept_request(issuer_id: u64, proposal_id: ProposalId, value: u64) -> (m: Message)
        ensures
            m == (Message::AcceptRequest {
                body: AcceptPhaseBody { issuer_id, proposal_id, value },
            }),
    {
        Message::AcceptRequest { body: AcceptPhaseBody { issuer_id, proposal_id, value } }
    }
}

} // verus!
