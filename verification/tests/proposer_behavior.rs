use paxos::id::ProposalId;
use paxos::message::{Message, MessageMetadata};
use paxos::proposal::Proposal;
use paxos::proposer::{ProposerError, ProposerNode};

#[test]
fn prepare_records_the_proposal() {
    let mut proposer = ProposerNode::new();
    let message = proposer.prepare_with_id(ProposalId(1), 42);
    match message {
        Message::PrepareRequest { metadata } => {
            assert_eq!(metadata.issuer_id, 1);
            assert_eq!(metadata.proposal_id, ProposalId(1));
        }
        other => panic!("expected a prepare request, got {:?}", other),
    }
    assert_eq!(proposer.latest_proposal, Some(Proposal { id: ProposalId(1), value: 42 }));
    assert_eq!(proposer.proposal_history, vec![(ProposalId(1), 42)]);
}

#[test]
fn minted_prepare_is_recorded_before_broadcast() {
    let mut proposer = ProposerNode::new();
    let first = proposer.send_prepare_request(42);
    let Message::PrepareRequest { metadata } = first else {
        panic!("expected a prepare request, got {:?}", first);
    };
    assert_eq!(metadata.issuer_id, 1);
    assert_eq!(proposer.latest_proposal, Some(Proposal { id: metadata.proposal_id, value: 42 }));
    assert!(proposer.proposal_history.contains(&(metadata.proposal_id, 42)));

    let second = proposer.send_prepare_request(43);
    let Message::PrepareRequest { metadata: second_metadata } = second else {
        panic!("expected a prepare request, got {:?}", second);
    };
    assert_ne!(metadata.proposal_id, second_metadata.proposal_id);
}

#[test]
fn quorum_is_a_strict_majority() {
    // With four acceptors, two prepare responses are not a quorum; three are.
    let mut proposer = ProposerNode::new();
    proposer.prepare_with_id(ProposalId(1), 42);
    let r1 = proposer
        .handle_prepare_response(MessageMetadata { issuer_id: 10, proposal_id: ProposalId(1) }, 4)
        .unwrap();
    assert!(r1.is_none());
    let r2 = proposer
        .handle_prepare_response(MessageMetadata { issuer_id: 11, proposal_id: ProposalId(1) }, 4)
        .unwrap();
    assert!(r2.is_none());
    let r3 = proposer
        .handle_prepare_response(MessageMetadata { issuer_id: 12, proposal_id: ProposalId(1) }, 4)
        .unwrap();
    match r3 {
        Some(Message::AcceptRequest { body }) => {
            assert_eq!(body.issuer_id, 1);
            assert_eq!(body.proposal_id, ProposalId(1));
            assert_eq!(body.value, 42);
        }
        other => panic!("expected an accept request on quorum, got {:?}", other),
    }
}

#[test]
fn repeated_responders_are_not_double_counted() {
    let mut proposer = ProposerNode::new();
    proposer.prepare_with_id(ProposalId(1), 42);
    for _ in 0..5 {
        let r = proposer
            .handle_prepare_response(
                MessageMetadata { issuer_id: 10, proposal_id: ProposalId(1) },
                3,
            )
            .unwrap();
        assert!(r.is_none());
    }
    assert_eq!(proposer.prepared_nodes, vec![10]);
}

#[test]
fn a_more_recent_echo_is_adopted() {
    let mut proposer = ProposerNode::new();
    proposer.prepare_with_id(ProposalId(5), 99);
    proposer.prepare_with_id(ProposalId(1), 42);
    assert_eq!(proposer.latest_proposal, Some(Proposal { id: ProposalId(1), value: 42 }));
    let r = proposer
        .handle_prepare_response(MessageMetadata { issuer_id: 10, proposal_id: ProposalId(5) }, 9)
        .unwrap();
    assert!(r.is_none());
    assert_eq!(proposer.latest_proposal, Some(Proposal { id: ProposalId(5), value: 99 }));
}

#[test]
fn an_unknown_echo_breaks_the_round() {
    let mut proposer = ProposerNode::new();
    proposer.prepare_with_id(ProposalId(1), 42);
    let r = proposer
        .handle_prepare_response(MessageMetadata { issuer_id: 10, proposal_id: ProposalId(9) }, 3);
    assert_eq!(
        r,
        Err(ProposerError::ProtocolInvariantViolation { proposal_id: Some(ProposalId(9)) })
    );
    // Nothing was counted on the failed round.
    assert!(proposer.prepared_nodes.is_empty());
}

#[test]
fn accept_without_a_pending_proposal_is_an_invariant_violation() {
    let proposer = ProposerNode::new();
    let r = proposer.send_accept_request();
    assert_eq!(r, Err(ProposerError::ProtocolInvariantViolation { proposal_id: None }));
}

#[test]
fn accept_request_carries_the_recorded_value() {
    let mut proposer = ProposerNode::new();
    proposer.prepare_with_id(ProposalId(3), 77);
    let m = proposer.send_accept_request().unwrap();
    match m {
        Message::AcceptRequest { body } => {
            assert_eq!(body.issuer_id, 1);
            assert_eq!(body.proposal_id, ProposalId(3));
            assert_eq!(body.value, 77);
        }
        other => panic!("expected an accept request, got {:?}", other),
    }
}

#[test]
fn accept_responses_reach_consensus_on_majority() {
    let mut proposer = ProposerNode::new();
    proposer.prepare_with_id(ProposalId(1), 42);
    let r1 = proposer
        .handle_accept_response(MessageMetadata { issuer_id: 10, proposal_id: ProposalId(1) }, 3)
        .unwrap();
    assert!(!r1);
    let r2 = proposer
        .handle_accept_response(MessageMetadata { issuer_id: 11, proposal_id: ProposalId(1) }, 3)
        .unwrap();
    assert!(r2);
    // A late response is still counted but consensus stays reached.
    let r3 = proposer
        .handle_accept_response(MessageMetadata { issuer_id: 12, proposal_id: ProposalId(1) }, 3)
        .unwrap();
    assert!(r3);
    assert_eq!(proposer.accepted_value_nodes, vec![10, 11, 12]);
}

#[test]
fn accept_response_for_an_unknown_id_is_an_invariant_violation() {
    let mut proposer = ProposerNode::new();
    let r = proposer
        .handle_accept_response(MessageMetadata { issuer_id: 10, proposal_id: ProposalId(1) }, 3);
    assert_eq!(
        r,
        Err(ProposerError::ProtocolInvariantViolation { proposal_id: Some(ProposalId(1)) })
    );
}
