//! The acceptor role: the safety-critical promise/accept state machine.

use vstd::prelude::*;

use crate::id::ProposalId;
use crate::message::{AcceptPhaseBody, LearnMessage, Message, MessageMetadata};

verus! {

/// The greater of two proposal ids under the total order; the left one when
/// they are equal.
pub open spec fn spec_max_id(a: ProposalId, b: ProposalId) -> ProposalId {
    if a.0 >= b.0 {
        a
    } else {
        b
    }
}

/// The id an acceptor promises (echoes back and adopts) when a prepare for
/// `incoming` arrives while its buffer holds `buffer`: the most up-to-date id
/// it then knows of.
pub open spec fn promise_result(buffer: Option<ProposalId>, incoming: ProposalId) -> ProposalId {
    match buffer {
        None => incoming,
        Some(buffered) => spec_max_id(buffered, incoming),
    }
}

/// Whether an accept request for `incoming` goes through: it does unless the
/// buffered promise strictly dominates it.
pub open spec fn accept_fires(buffer: Option<ProposalId>, incoming: ProposalId) -> bool {
    match buffer {
        None => true,
        Some(buffered) => buffered.0 <= incoming.0,
    }
}

/// One delivery to an acceptor, as far as its buffer is concerned.
#[derive(Clone, Copy, Debug, PartialEq, Eq, Structural)]
pub enum AcceptorEvent {
    Prepare { proposal_id: ProposalId },
    Accept { proposal_id: ProposalId },
}

/// The buffer after one delivery: a prepare adopts the most up-to-date id,
/// an accept that fires clears the buffer, and a stale accept leaves it
/// untouched.
pub open spec fn step_buffer(buffer: Option<ProposalId>, event: AcceptorEvent) -> Option<
    ProposalId,
> {
    match event {
        AcceptorEvent::Prepare { proposal_id } => Some(promise_result(buffer, proposal_id)),
        AcceptorEvent::Accept { proposal_id } => if accept_fires(buffer, proposal_id) {
            None
        } else {
            buffer
        },
    }
}

/// The buffer after a whole sequence of deliveries.
pub open spec fn run_buffer(buffer: Option<ProposalId>, events: Seq<AcceptorEvent>) -> Option<
    ProposalId,
> decreases events.len() {
    if events.len() == 0 {
        buffer
    } else {
        step_buffer(run_buffer(buffer, events.drop_last()), events.last())
    }
}

/// Whether the delivery at position `k` is an accept that fires, given the
/// buffer the earlier deliveries left behind.
pub open spec fn accept_fires_at(
    initial: Option<ProposalId>,
    events: Seq<AcceptorEvent>,
    k: int,
) -> bool
    recommends
        0 <= k < events.len(),
{
    &&& events[k] is Accept
    &&& accept_fires(run_buffer(initial, events.take(k)), events[k]->Accept_proposal_id)
}

/// The acceptor's event, if any, that a received message amounts to.
pub open spec fn event_of_message(message: Message) -> Option<AcceptorEvent> {
    match message {
        Message::PrepareRequest { metadata } => Some(
            AcceptorEvent::Prepare { proposal_id: metadata.proposal_id },
        ),
        Message::AcceptRequest { body } => Some(
            AcceptorEvent::Accept { proposal_id: body.proposal_id },
        ),
        _ => None,
    }
}

/// Law: an acceptor's buffer, once set, is non-decreasing under the total
/// order across any sequence of prepare deliveries — a promise never goes
/// backwards.
pub proof fn lemma_promise_monotonic(buffered: ProposalId, events: Seq<AcceptorEvent>)
    requires
        forall|k: int| 0 <= k < events.len() ==> events[k] is Prepare,
    ensures
        run_buffer(Some(buffered), events) is Some,
        (run_buffer(Some(buffered), events)->0).0 >= buffered.0,
    decreases events.len(),
{
    if events.len() > 0 {
        lemma_promise_monotonic(buffered, events.drop_last());
    }
}

/// After delivering `events`, if the prepare at position `j` has seen no
/// firing accept after it, the buffer still dominates the id it promised.
proof fn lemma_buffer_dominates(
    initial: Option<ProposalId>,
    events: Seq<AcceptorEvent>,
    j: int,
)
    requires
        0 <= j < events.len(),
        events[j] is Prepare,
        forall|k: int| j < k < events.len() ==> !accept_fires_at(initial, events, k),
    ensures
        run_buffer(initial, events) is Some,
        (run_buffer(initial, events)->0).0 >= events[j]->Prepare_proposal_id.0,
    decreases events.len(),
{
    if j == events.len() - 1 {
        assert(events.drop_last() =~= events.take(j));
    } else {
        assert forall|k: int|
            j < k < events.drop_last().len() implies !accept_fires_at(
            initial,
            events.drop_last(),
            k,
        ) by {
            assert(events.drop_last().take(k) =~= events.take(k));
            assert(!accept_fires_at(initial, events, k));
        }
        lemma_buffer_dominates(initial, events.drop_last(), j);
        if events.last() is Accept {
            assert(events.take(events.len() - 1) =~= events.drop_last());
            assert(!accept_fires_at(initial, events, events.len() - 1));
        }
    }
}

/// Law: safety. For any sequence of prepare/accept deliveries to one
/// acceptor, it never accepts a proposal id lower than an id it has
/// promised and not yet resolved: if the accept at position `i` fires, its
/// id dominates the id of every prepare since the decree began — every
/// position `j` with no firing accept in between.
pub proof fn lemma_acceptor_safety(
    initial: Option<ProposalId>,
    events: Seq<AcceptorEvent>,
    j: int,
    i: int,
)
    requires
        0 <= j < i < events.len(),
        events[j] is Prepare,
        forall|k: int| j < k < i ==> !accept_fires_at(initial, events, k),
        accept_fires_at(initial, events, i),
    ensures
        events[i]->Accept_proposal_id.0 >= events[j]->Prepare_proposal_id.0,
{
    assert forall|k: int| j < k < events.take(i).len() implies !accept_fires_at(
        initial,
        events.take(i),
        k,
    ) by {
        assert(events.take(i).take(k) =~= events.take(k));
        assert(!accept_fires_at(initial, events, k));
    }
    lemma_buffer_dominates(initial, events.take(i), j);
}

/// Law: a fresh decree. When an accept fires, the buffer is cleared, and
/// the acceptor takes the very next prepare/accept pair unconditionally:
/// it promises exactly the incoming id, and it accepts any id at least as
/// recent as the one it just promised.
pub proof fn lemma_fresh_decree(
    buffer: Option<ProposalId>,
    accepted: ProposalId,
    prepared: ProposalId,
    next: ProposalId,
)
    requires
        accept_fires(buffer, accepted),
        next.0 >= prepared.0,
    ensures
        step_buffer(buffer, AcceptorEvent::Accept { proposal_id: accepted }) is None,
        step_buffer(
            step_buffer(buffer, AcceptorEvent::Accept { proposal_id: accepted }),
            AcceptorEvent::Prepare { proposal_id: prepared },
        ) == Some(prepared),
        accept_fires(
            step_buffer(
                step_buffer(buffer, AcceptorEvent::Accept { proposal_id: accepted }),
                AcceptorEvent::Prepare { proposal_id: prepared },
            ),
            next,
        ),
{
}

/// A per-node promise/accept state machine. It starts idle, promises every
/// prepare it receives, and accepts a value unless it has promised a newer
/// proposal.
pub struct AcceptorNode {
    /// Identifier of the node.
    pub id: u64,
    /// Buffer that temporarily stores the id of the latest proposal set to
    /// be accepted on this node; empty while no decree is pending.
    pub buffer: Option<ProposalId>,
}

impl AcceptorNode {
    pub fn new(id: u64) -> (node: AcceptorNode)
        ensures
            node == (AcceptorNode { id, buffer: None::<ProposalId> }),
    {
        AcceptorNode { id, buffer: None }
    }

    /// Promise a prepare request: adopt into the buffer whichever of the
    /// buffered and the incoming id is more up-to-date, and echo that id
    /// back. An acceptor always promises, never rejects, a prepare.
    pub fn reply_prepare_request(&mut self, message_metadata: MessageMetadata) -> (response:
        Message)
        ensures
            final(self).id == old(self).id,
            final(self).buffer == step_buffer(
                old(self).buffer,
                AcceptorEvent::Prepare { proposal_id: message_metadata.proposal_id },
            ),
            final(self).buffer == Some(
                promise_result(old(self).buffer, message_metadata.proposal_id),
            ),
            response == (Message::PrepareResponse {
                metadata: MessageMetadata {
                    issuer_id: old(self).id,
                    proposal_id: promise_result(old(self).buffer, message_metadata.proposal_id),
                },
            }),
            // the promise never goes backwards, and never below the incoming id
            old(self).buffer matches Some(buffered) ==> (final(self).buffer->0).0 >= buffered.0,
            (final(self).buffer->0).0 >= message_metadata.proposal_id.0,
    {
        let proposal_id = message_metadata.proposal_id;
        if let Some(proposal_in_buffer) = self.buffer {
            let up_to_date_proposal = if proposal_in_buffer > proposal_id {
                proposal_in_buffer
            } else {
                proposal_id
            };
            self.buffer = Some(up_to_date_proposal);
            Message::PrepareResponse {
                metadata: MessageMetadata { issuer_id: self.id, proposal_id: up_to_date_proposal },
            }
        } else {
            self.buffer = Some(proposal_id);
            Message::PrepareResponse {
                metadata: MessageMetadata { issuer_id: self.id, proposal_id },
            }
        }
    }

    /// Decide an accept request. If the buffered promise strictly dominates
    /// the incoming id the request is rejected silently: nothing is emitted
    /// and the buffer stays. Otherwise the value is accepted: the buffer is
    /// cleared for the next decree and the acceptor emits an acknowledgement
    /// for the proposer together with a notification for the learner.
    pub fn reply_accept_request(&mut self, received_proposal: AcceptPhaseBody) -> (r: Option<
        (Message, LearnMessage),
    >)
        ensures
            final(self).id == old(self).id,
            final(self).buffer == step_buffer(
                old(self).buffer,
                AcceptorEvent::Accept { proposal_id: received_proposal.proposal_id },
            ),
            r is Some <==> accept_fires(old(self).buffer, received_proposal.proposal_id),
            r is Some ==> r == Some(
                (
                    Message::AcceptResponse {
                        metadata: MessageMetadata {
                            issuer_id: old(self).id,
                            proposal_id: received_proposal.proposal_id,
                        },
                    },
                    LearnMessage {
                        value: received_proposal.value,
                        node_id: old(self).id,
                        proposal_id: received_proposal.proposal_id,
                    },
                ),
            ),
            r is Some ==> final(self).buffer is None,
            r is None ==> *final(self) == *old(self),
    {
        let accept_response = Message::AcceptResponse {
            metadata: MessageMetadata {
                issuer_id: self.id,
                proposal_id: received_proposal.proposal_id,
            },
        };
        let learn_notify = LearnMessage {
            value: received_proposal.value,
            node_id: self.id,
            proposal_id: received_proposal.proposal_id,
        };
        if let Some(proposal_in_buffer) = self.buffer {
            // Do not accept the value if the one in the buffer is more updated.
            if proposal_in_buffer > received_proposal.proposal_id {
                None
            } else {
                // Clear the buffer after accepting the value: the node is
                // ready for the next decree.
                self.buffer = None;
                Some((accept_response, learn_notify))
            }
        } else {
            // No promise is pending, so the first value received is accepted.
            Some((accept_response, learn_notify))
        }
    }

    /// Dispatch one received message: prepares are promised, accepts are
    /// decided, everything else is ignored. Returns the reply for the
    /// proposer, if any, and the notification for the learner, if any.
    pub fn handle_message(&mut self, message: Message) -> (r: (Option<Message>, Option<
        LearnMessage,
    >))
        ensures
            final(self).id == old(self).id,
            final(self).buffer == (match event_of_message(message) {
                Some(event) => step_buffer(old(self).buffer, event),
                None => old(self).buffer,
            }),
            message matches Message::PrepareRequest { metadata } ==> r == (
                Some(
                    Message::PrepareResponse {
                        metadata: MessageMetadata {
                            issuer_id: old(self).id,
                            proposal_id: promise_result(old(self).buffer, metadata.proposal_id),
                        },
                    },
                ),
                None::<LearnMessage>,
            ),
            message matches Message::AcceptRequest { body } ==> (if accept_fires(
                old(self).buffer,
                body.proposal_id,
            ) {
                r == (
                    Some(
                        Message::AcceptResponse {
                            metadata: MessageMetadata {
                                issuer_id: old(self).id,
                                proposal_id: body.proposal_id,
                            },
                        },
                    ),
                    Some(
                        LearnMessage {
                            value: body.value,
                            node_id: old(self).id,
                            proposal_id: body.proposal_id,
                        },
                    ),
                )
            } else {
                r == (None::<Message>, None::<LearnMessage>)
            }),
            event_of_message(message) is None ==> r == (None::<Message>, None::<LearnMessage>)
                && *final(self) == *old(self),
    {
        match message {
            Message::PrepareRequest { metadata } => {
                let response = self.reply_prepare_request(metadata);
                (Some(response), None)
            },
            Message::AcceptRequest { body } => {
                match self.reply_accept_request(body) {
                    Some((response, notify)) => (Some(response), Some(notify)),
                    None => (None, None),
                }
            },
            _ => (None, None),
        }
    }
}

} // verus!
