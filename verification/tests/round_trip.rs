use paxos::acceptor::AcceptorNode;
use paxos::config::Args;
use paxos::id::{BrandedUuid, ProposalId};
use paxos::learner::Learner;
use paxos::message::{LearnMessage, Message};
use paxos::proposal::Proposal;
use paxos::proposer::ProposerNode;

/// Three acceptors, one proposer, one learner: a full round for value 42
/// ends with the learner committing exactly once.
#[test]
fn three_acceptors_commit_a_value_once() {
    let total = 3;
    let mut proposer = ProposerNode::new();
    let mut acceptors = vec![AcceptorNode::new(0), AcceptorNode::new(1), AcceptorNode::new(2)];
    let mut learner = Learner::new();

    // The client value enters the proposer, which broadcasts a prepare.
    let prepare = proposer.prepare_with_id(ProposalId(1), 42);

    // Every acceptor has an empty buffer and promises the new id.
    let mut prepare_responses = Vec::new();
    for acceptor in acceptors.iter_mut() {
        let (response, notify) = acceptor.handle_message(prepare);
        assert!(notify.is_none());
        assert_eq!(acceptor.buffer, Some(ProposalId(1)));
        prepare_responses.push(response.expect("a prepare is always promised"));
    }

    // The proposer counts the promises and moves to the accept phase as
    // soon as they form a strict majority.
    let mut accept_request = None;
    for (i, response) in prepare_responses.into_iter().enumerate() {
        let Message::PrepareResponse { metadata } = response else {
            panic!("expected a prepare response, got {:?}", response);
        };
        let outcome = proposer.handle_prepare_response(metadata, total).unwrap();
        if i == 0 {
            assert!(outcome.is_none(), "one promise out of three is no quorum");
        } else {
            accept_request = outcome;
        }
    }
    assert_eq!(proposer.prepared_nodes, vec![0, 1, 2]);
    let accept = accept_request.expect("three promises out of three are a quorum");
    match accept {
        Message::AcceptRequest { body } => {
            assert_eq!(body.proposal_id, ProposalId(1));
            assert_eq!(body.value, 42);
        }
        other => panic!("expected an accept request, got {:?}", other),
    }

    // Every acceptor accepts, acknowledges, and notifies the learner.
    let mut notifications: Vec<LearnMessage> = Vec::new();
    for acceptor in acceptors.iter_mut() {
        let (response, notify) = acceptor.handle_message(accept);
        let Some(Message::AcceptResponse { metadata }) = response else {
            panic!("expected an accept response, got {:?}", response);
        };
        let consensus = proposer.handle_accept_response(metadata, total).unwrap();
        let _ = consensus;
        assert_eq!(acceptor.buffer, None, "an accepting node is ready for the next decree");
        notifications.push(notify.expect("an accepted value is reported to the learner"));
    }
    assert_eq!(proposer.accepted_value_nodes, vec![0, 1, 2]);

    // The learner tallies the notifications and commits exactly once.
    let mut commits = Vec::new();
    for notification in notifications {
        if let Some(proposal) = learner.on_accept_notify(notification, total) {
            commits.push(proposal);
        }
    }
    assert_eq!(commits, vec![Proposal { id: ProposalId(1), value: 42 }]);
    assert_eq!(learner.committed, vec![ProposalId(1)]);
}

#[test]
fn message_constructors_carry_their_fields() {
    let prepare = Message::new_prepare(1, ProposalId(9));
    match prepare {
        Message::PrepareRequest { metadata } => {
            assert_eq!(metadata.issuer_id, 1);
            assert_eq!(metadata.proposal_id, ProposalId(9));
        }
        other => panic!("expected a prepare request, got {:?}", other),
    }
    let accept = Message::new_accept_request(1, ProposalId(9), 42);
    match accept {
        Message::AcceptRequest { body } => {
            assert_eq!(body.issuer_id, 1);
            assert_eq!(body.proposal_id, ProposalId(9));
            assert_eq!(body.value, 42);
        }
        other => panic!("expected an accept request, got {:?}", other),
    }
}

#[test]
fn proposal_new_orders_its_fields() {
    let p = Proposal::new(42, ProposalId(1));
    assert_eq!(p.id, ProposalId(1));
    assert_eq!(p.value, 42);
}

#[test]
fn formatted_is_the_tail_of_the_uuid_rendering() {
    assert_eq!(ProposalId(0x123abc).formatted(), "123abc");
    assert_eq!(ProposalId(0).formatted(), "000000");
    // Only the lowest 24 bits show.
    assert_eq!(ProposalId(0xdeadbeef).formatted(), "adbeef");
    assert_eq!(ProposalId(u128::MAX).formatted(), "ffffff");
}

#[test]
fn proposal_ids_order_by_their_raw_value() {
    assert!(ProposalId(3) < ProposalId(5));
    assert!(ProposalId(5) > ProposalId(3));
    assert_eq!(ProposalId(4), ProposalId(4));
}

#[test]
fn default_run_configuration() {
    let args = Args::default();
    assert_eq!(args.nodes, 3);
    assert_eq!(args.rounds, 10);
}
