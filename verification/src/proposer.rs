//! The proposer role: drives rounds, tallies replies, computes quorum.

use vstd::prelude::*;

use crate::id::{new_proposal_id, ProposalId};
use crate::message::{AcceptPhaseBody, Message, MessageMetadata};
use crate::proposal::Proposal;

verus! {

/// Whether `count` replies out of `total` reachable acceptors form a strict
/// majority: more than half under integer division.
pub open spec fn is_quorum(count: int, total: int) -> bool {
    count > total / 2
}

/// Law: quorum arithmetic. The strict majority of `total` acceptors is
/// reached exactly by `total / 2 + 1` replies (integer division), never by
/// fewer.
pub proof fn lemma_quorum_threshold(count: int, total: int)
    ensures
        is_quorum(count, total) <==> count >= total / 2 + 1,
{
}

/// The round cannot proceed: a proposal id is referenced that has no entry
/// in the proposal history (`proposal_id` names it), or no proposal is
/// pending at all when one must be (`proposal_id` is empty). This indicates
/// broken bookkeeping, fatal to the round, not a recoverable condition.
#[derive(Clone, Copy, Debug, PartialEq, Eq, Structural)]
pub enum ProposerError {
    ProtocolInvariantViolation { proposal_id: Option<ProposalId> },
}

/// The node that broadcasts proposals to all the acceptors and advances
/// the round from the prepare phase to the accept phase on quorum.
pub struct ProposerNode {
    pub id: u64,
    /// The id and value of the latest proposal set to be accepted by any
    /// acceptor.
    pub latest_proposal: Option<Proposal>,
    /// History of proposals sent by this proposer, and their respective
    /// values: append-only, one entry per id.
    pub proposal_history: Vec<(ProposalId, u64)>,
    /// Nodes that replied to the prepare request.
    pub prepared_nodes: Vec<u64>,
    /// Nodes that replied to the accept request.
    pub accepted_value_nodes: Vec<u64>,
}

/// The mapping that an association list of (id, value) entries stands for:
/// later entries win, though under `distinct_ids` there is never a repeat.
pub open spec fn history_map(history: Seq<(ProposalId, u64)>) -> Map<ProposalId, u64>
    decreases history.len(),
{
    if history.len() == 0 {
        Map::empty()
    } else {
        history_map(history.drop_last()).insert(history.last().0, history.last().1)
    }
}

/// No proposal id appears twice in the history.
pub open spec fn distinct_ids(history: Seq<(ProposalId, u64)>) -> bool {
    forall|i: int, j: int|
        0 <= i < j < history.len() ==> history[i].0 != history[j].0
}

impl ProposerNode {
    /// The proposer's bookkeeping is sound: no id is recorded twice, no
    /// node is counted twice, and the pending proposal, if any, was
    /// recorded in the history before it was broadcast.
    pub open spec fn wf(&self) -> bool {
        &&& distinct_ids(self.proposal_history@)
        &&& self.prepared_nodes@.no_duplicates()
        &&& self.accepted_value_nodes@.no_duplicates()
        &&& self.latest_proposal matches Some(p) ==> history_map(
            self.proposal_history@,
        ).contains_key(p.id)
    }

    pub fn new() -> (node: ProposerNode)
        ensures
            node.wf(),
            node.id == 1,
            node.latest_proposal is None,
            node.proposal_history@ == Seq::<(ProposalId, u64)>::empty(),
            node.prepared_nodes@ == Seq::<u64>::empty(),
            node.accepted_value_nodes@ == Seq::<u64>::empty(),
    {
        ProposerNode {
            id: 1,
            latest_proposal: None,
            proposal_history: Vec::new(),
            prepared_nodes: Vec::new(),
            accepted_value_nodes: Vec::new(),
        }
    }

    /// The value recorded in the proposal history for `proposal_id`, if any.
    pub fn lookup_value(&self, proposal_id: ProposalId) -> (r: Option<u64>)
        requires
            distinct_ids(self.proposal_history@),
        ensures
            r == (if history_map(self.proposal_history@).contains_key(proposal_id) {
                Some(history_map(self.proposal_history@)[proposal_id])
            } else {
                None::<u64>
            }),
    {
        let mut i: usize = 0;
        while i < self.proposal_history.len()
            invariant
                0 <= i <= self.proposal_history@.len(),
                distinct_ids(self.proposal_history@),
                forall|k: int| 0 <= k < i ==> self.proposal_history@[k].0 != proposal_id,
            decreases self.proposal_history@.len() - i,
        {
            let entry = self.proposal_history[i];
            if entry.0 == proposal_id {
                proof {
                    lemma_history_map_entry(self.proposal_history@, i as int);
                }
                return Some(entry.1);
            }
            i += 1;
        }
        proof {
            lemma_history_map_domain(self.proposal_history@, proposal_id);
        }
        None
    }

    /// Start a round for `value` under the given ballot: record the pair in
    /// the history (append-only; an id that is somehow already recorded
    /// keeps its first value), make it the pending proposal, and build the
    /// prepare request to broadcast to all acceptors.
    pub fn prepare_with_id(&mut self, proposal_id: ProposalId, value: u64) -> (m: Message)
        requires
            old(self).wf(),
        ensures
            final(self).wf(),
            final(self).id == old(self).id,
            final(self).prepared_nodes == old(self).prepared_nodes,
            final(self).accepted_value_nodes == old(self).accepted_value_nodes,
            final(self).latest_proposal == Some(Proposal { id: proposal_id, value }),
            !history_map(old(self).proposal_history@).contains_key(proposal_id) ==> final(self).proposal_history@ == old(self).proposal_history@.push((proposal_id, value))
                && history_map(final(self).proposal_history@) == history_map(
                old(self).proposal_history@,
            ).insert(proposal_id, value),
            history_map(old(self).proposal_history@).contains_key(proposal_id) ==> final(self).proposal_history == old(self).proposal_history,
            m == (Message::PrepareRequest {
                metadata: MessageMetadata { issuer_id: old(self).id, proposal_id },
            }),
    {
        if self.lookup_value(proposal_id).is_none() {
            proof {
                lemma_history_map_domain(self.proposal_history@, proposal_id);
                lemma_history_map_push(self.proposal_history@, proposal_id, value);
            }
            self.proposal_history.push((proposal_id, value));
        }
        self.latest_proposal = Some(Proposal { id: proposal_id, value });
        Message::new_prepare(self.id, proposal_id)
    }

    /// Start a round for a client value: mint a fresh ballot, record it,
    /// and build the prepare request to broadcast. Everything stated of the
    /// round holds whatever id was minted; the id itself is read off the
    /// returned message.
    pub fn send_prepare_request(&mut self, value: u64) -> (m: Message)
        requires
            old(self).wf(),
        ensures
            final(self).wf(),
            final(self).id == old(self).id,
            final(self).prepared_nodes == old(self).prepared_nodes,
            final(self).accepted_value_nodes == old(self).accepted_value_nodes,
            m matches Message::PrepareRequest { metadata } ==> ({
                &&& metadata.issuer_id == old(self).id
                &&& final(self).latest_proposal == Some(
                    Proposal { id: metadata.proposal_id, value },
                )
                &&& (!history_map(old(self).proposal_history@).contains_key(metadata.proposal_id)
                    ==> final(self).proposal_history@ == old(self).proposal_history@.push(
                    (metadata.proposal_id, value),
                ))
                &&& (history_map(old(self).proposal_history@).contains_key(metadata.proposal_id)
                    ==> final(self).proposal_history == old(self).proposal_history)
            }),
            m is PrepareRequest,
    {
        let proposal_id = new_proposal_id();
        self.prepare_with_id(proposal_id, value)
    }

    /// Build the accept request for the pending proposal: look its id up in
    /// the history to retrieve the value to propose. With no pending
    /// proposal the round cannot proceed and the protocol invariant is
    /// reported broken.
    pub fn send_accept_request(&self) -> (r: Result<Message, ProposerError>)
        requires
            self.wf(),
        ensures
            self.latest_proposal matches Some(p) ==> r == Ok::<Message, ProposerError>(
                Message::AcceptRequest {
                    body: AcceptPhaseBody {
                        issuer_id: self.id,
                        proposal_id: p.id,
                        value: history_map(self.proposal_history@)[p.id],
                    },
                },
            ),
            self.latest_proposal is None ==> r == Err::<Message, ProposerError>(
                ProposerError::ProtocolInvariantViolation { proposal_id: None::<ProposalId> },
            ),
    {
        match self.latest_proposal {
            None => Err(ProposerError::ProtocolInvariantViolation { proposal_id: None }),
            Some(latest_proposal) => match self.lookup_value(latest_proposal.id) {
                Some(value) => Ok(Message::new_accept_request(self.id, latest_proposal.id, value)),
                None => Err(
                    ProposerError::ProtocolInvariantViolation {
                        proposal_id: Some(latest_proposal.id),
                    },
                ),
            },
        }
    }

    /// Take in one prepare response. If the responding acceptor knows of a
    /// more up-to-date proposal, adopt it (its value must be on record:
    /// otherwise the round is fatally broken and an error is returned with
    /// nothing changed). Count the responder, idempotently; as soon as the
    /// responders form a strict majority of the `active_acceptors`
    /// currently listening, the round moves to the accept phase and the
    /// accept request to broadcast is returned — never before.
    pub fn handle_prepare_response(
        &mut self,
        metadata: MessageMetadata,
        active_acceptors: usize,
    ) -> (r: Result<Option<Message>, ProposerError>)
        requires
            old(self).wf(),
        ensures
            final(self).wf(),
            final(self).id == old(self).id,
            final(self).proposal_history == old(self).proposal_history,
            final(self).accepted_value_nodes == old(self).accepted_value_nodes,
            adoption_fails(
                old(self).latest_proposal,
                history_map(old(self).proposal_history@),
                metadata.proposal_id,
            ) ==> r == Err::<Option<Message>, ProposerError>(
                ProposerError::ProtocolInvariantViolation {
                    proposal_id: Some(metadata.proposal_id),
                },
            ) && *final(self) == *old(self),
            !adoption_fails(
                old(self).latest_proposal,
                history_map(old(self).proposal_history@),
                metadata.proposal_id,
            ) ==> ({
                let latest = adopted_latest(
                    old(self).latest_proposal,
                    history_map(old(self).proposal_history@),
                    metadata.proposal_id,
                );
                &&& final(self).latest_proposal == latest
                &&& final(self).prepared_nodes@.to_set() == old(self).prepared_nodes@.to_set().insert(metadata.issuer_id)
                &&& final(self).prepared_nodes@ == (if old(self).prepared_nodes@.contains(
                    metadata.issuer_id,
                ) {
                    old(self).prepared_nodes@
                } else {
                    old(self).prepared_nodes@.push(metadata.issuer_id)
                })
                &&& (if is_quorum(
                    final(self).prepared_nodes@.len() as int,
                    active_acceptors as int,
                ) {
                    match latest {
                        Some(p) => r == Ok::<Option<Message>, ProposerError>(
                            Some(
                                Message::AcceptRequest {
                                    body: AcceptPhaseBody {
                                        issuer_id: old(self).id,
                                        proposal_id: p.id,
                                        value: history_map(old(self).proposal_history@)[p.id],
                                    },
                                },
                            ),
                        ),
                        None => r == Err::<Option<Message>, ProposerError>(
                            ProposerError::ProtocolInvariantViolation {
                                proposal_id: None::<ProposalId>,
                            },
                        ),
                    }
                } else {
                    r == Ok::<Option<Message>, ProposerError>(None::<Message>)
                })
            }),
    {
        let received_proposal_id = metadata.proposal_id;
        if let Some(latest_proposal) = self.latest_proposal {
            // If there is a node that received a more up-to-date proposal,
            // use it to update the proposed value for the next iterations.
            if received_proposal_id > latest_proposal.id {
                match self.lookup_value(received_proposal_id) {
                    Some(proposal_value) => {
                        self.latest_proposal = Some(
                            Proposal { id: received_proposal_id, value: proposal_value },
                        );
                    },
                    None => {
                        return Err(
                            ProposerError::ProtocolInvariantViolation {
                                proposal_id: Some(received_proposal_id),
                            },
                        );
                    },
                }
            }
        }
        insert_node(&mut self.prepared_nodes, metadata.issuer_id);
        if self.prepared_nodes.len() > active_acceptors / 2 {
            match self.send_accept_request() {
                Ok(accept_request) => Ok(Some(accept_request)),
                Err(e) => Err(e),
            }
        } else {
            Ok(None)
        }
    }

    /// Take in one accept response: count the responder, idempotently, and
    /// report whether the accepting nodes now form a strict majority of the
    /// `active_acceptors` — the point at which consensus is reached for this
    /// round. Late responses after that point are still counted but change
    /// nothing. An id with no recorded value breaks the protocol invariant:
    /// an error is returned with nothing changed.
    pub fn handle_accept_response(
        &mut self,
        metadata: MessageMetadata,
        active_acceptors: usize,
    ) -> (r: Result<bool, ProposerError>)
        requires
            old(self).wf(),
        ensures
            final(self).wf(),
            final(self).id == old(self).id,
            final(self).proposal_history == old(self).proposal_history,
            final(self).latest_proposal == old(self).latest_proposal,
            final(self).prepared_nodes == old(self).prepared_nodes,
            !history_map(old(self).proposal_history@).contains_key(metadata.proposal_id) ==> r
                == Err::<bool, ProposerError>(
                ProposerError::ProtocolInvariantViolation {
                    proposal_id: Some(metadata.proposal_id),
                },
            ) && *final(self) == *old(self),
            history_map(old(self).proposal_history@).contains_key(metadata.proposal_id) ==> ({
                &&& final(self).accepted_value_nodes@.to_set() == old(self).accepted_value_nodes@.to_set().insert(metadata.issuer_id)
                &&& final(self).accepted_value_nodes@ == (if old(self).accepted_value_nodes@.contains(metadata.issuer_id) {
                    old(self).accepted_value_nodes@
                } else {
                    old(self).accepted_value_nodes@.push(metadata.issuer_id)
                })
                &&& r == Ok::<bool, ProposerError>(
                    is_quorum(
                        final(self).accepted_value_nodes@.len() as int,
                        active_acceptors as int,
                    ),
                )
            }),
    {
        if self.lookup_value(metadata.proposal_id).is_none() {
            return Err(
                ProposerError::ProtocolInvariantViolation {
                    proposal_id: Some(metadata.proposal_id),
                },
            );
        }
        insert_node(&mut self.accepted_value_nodes, metadata.issuer_id);
        Ok(self.accepted_value_nodes.len() > active_acceptors / 2)
    }
}

/// Whether a prepare response for `received` puts the proposer in a state it
/// cannot recover from: an acceptor echoed a more up-to-date id than the
/// pending proposal's, yet the history holds no value for it. Every id an
/// acceptor echoes originates from some proposer's broadcast, so in a
/// single-proposer deployment this never happens.
pub open spec fn adoption_fails(
    latest: Option<Proposal>,
    history: Map<ProposalId, u64>,
    received: ProposalId,
) -> bool {
    &&& latest matches Some(p)
    &&& received.0 > p.id.0
    &&& !history.contains_key(received)
}

/// The pending proposal after a prepare response for `received` was taken
/// in: when an acceptor knows of a more up-to-date id, the proposer adopts
/// it, together with the value it recorded for that id when it broadcast it.
pub open spec fn adopted_latest(
    latest: Option<Proposal>,
    history: Map<ProposalId, u64>,
    received: ProposalId,
) -> Option<Proposal>
    recommends
        !adoption_fails(latest, history, received),
{
    match latest {
        None => None,
        Some(p) => if received.0 > p.id.0 {
            Some(Proposal { id: received, value: history[received] })
        } else {
            Some(p)
        },
    }
}

/// Record `node` in a reply tally, idempotently: a node that already
/// replied is not counted twice.
fn insert_node(nodes: &mut Vec<u64>, node: u64)
    requires
        old(nodes)@.no_duplicates(),
    ensures
        final(nodes)@.no_duplicates(),
        old(nodes)@.contains(node) ==> final(nodes)@ == old(nodes)@,
        !old(nodes)@.contains(node) ==> final(nodes)@ == old(nodes)@.push(node),
        final(nodes)@.to_set() == old(nodes)@.to_set().insert(node),
        final(nodes)@.len() == (if old(nodes)@.contains(node) {
            old(nodes)@.len()
        } else {
            old(nodes)@.len() + 1
        }),
{
    let mut i: usize = 0;
    while i < nodes.len()
        invariant
            nodes@ == old(nodes)@,
            nodes@.no_duplicates(),
            0 <= i <= nodes@.len(),
            forall|k: int| 0 <= k < i ==> nodes@[k] != node,
        decreases nodes@.len() - i,
    {
        if nodes[i] == node {
            proof {
                assert(nodes@.to_set().insert(node) =~= nodes@.to_set());
            }
            return ;
        }
        i += 1;
    }
    nodes.push(node);
    proof {
        assert(!old(nodes)@.contains(node));
        old(nodes)@.lemma_push_to_set_commute(node);
    }
}

/// Under distinct ids, the entry at position `i` is exactly what the map
/// view of the history holds for its id.
proof fn lemma_history_map_entry(history: Seq<(ProposalId, u64)>, i: int)
    requires
        distinct_ids(history),
        0 <= i < history.len(),
    ensures
        history_map(history).contains_key(history[i].0),
        history_map(history)[history[i].0] == history[i].1,
    decreases history.len(),
{
    if i < history.len() - 1 {
        lemma_history_map_entry(history.drop_last(), i);
    }
}

/// Appending an entry inserts it into the map view of the history.
proof fn lemma_history_map_push(
    history: Seq<(ProposalId, u64)>,
    proposal_id: ProposalId,
    value: u64,
)
    ensures
        history_map(history.push((proposal_id, value))) == history_map(history).insert(
            proposal_id,
            value,
        ),
{
    assert(history.push((proposal_id, value)).drop_last() =~= history);
}

/// An id is in the map view of the history exactly when some entry holds it.
proof fn lemma_history_map_domain(history: Seq<(ProposalId, u64)>, proposal_id: ProposalId)
    ensures
        history_map(history).contains_key(proposal_id) <==> exists|k: int|
            0 <= k < history.len() && history[k].0 == proposal_id,
    decreases history.len(),
{
    if history.len() > 0 {
        lemma_history_map_domain(history.drop_last(), proposal_id);
        if history.last().0 != proposal_id && exists|k: int|
            0 <= k < history.len() && history[k].0 == proposal_id {
            let k = choose|k: int| 0 <= k < history.len() && history[k].0 == proposal_id;
            assert(history.drop_last()[k] == history[k]);
        }
    }
}

} // verus!
