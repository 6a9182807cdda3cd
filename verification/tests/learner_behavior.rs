use paxos::id::ProposalId;
use paxos::learner::Learner;
use paxos::message::LearnMessage;
use paxos::proposal::Proposal;

fn notify(node_id: u64, proposal_id: ProposalId, value: u64) -> LearnMessage {
    LearnMessage { value, node_id, proposal_id }
}

#[test]
fn commit_happens_exactly_once_per_proposal() {
    let mut learner = Learner::new();
    let total = 3;
    assert_eq!(learner.on_accept_notify(notify(0, ProposalId(1), 42), total), None);
    assert_eq!(
        learner.on_accept_notify(notify(1, ProposalId(1), 42), total),
        Some(Proposal { id: ProposalId(1), value: 42 })
    );
    // Extra notifications after quorum are observed but commit nothing.
    assert_eq!(learner.on_accept_notify(notify(2, ProposalId(1), 42), total), None);
    assert_eq!(learner.on_accept_notify(notify(1, ProposalId(1), 42), total), None);
    assert_eq!(learner.committed, vec![ProposalId(1)]);
}

#[test]
fn one_acceptor_is_never_counted_twice() {
    let mut learner = Learner::new();
    let total = 3;
    assert_eq!(learner.on_accept_notify(notify(0, ProposalId(1), 42), total), None);
    assert_eq!(learner.on_accept_notify(notify(0, ProposalId(1), 42), total), None);
    assert_eq!(learner.on_accept_notify(notify(0, ProposalId(1), 42), total), None);
    assert_eq!(learner.tally, vec![(ProposalId(1), 0)]);
    assert!(learner.committed.is_empty());
}

#[test]
fn distinct_proposals_are_tallied_apart() {
    let mut learner = Learner::new();
    let total = 3;
    assert_eq!(learner.on_accept_notify(notify(0, ProposalId(1), 42), total), None);
    assert_eq!(learner.on_accept_notify(notify(1, ProposalId(2), 7), total), None);
    // Each proposal has a single vote so far: no quorum anywhere.
    assert!(learner.committed.is_empty());
    assert_eq!(
        learner.on_accept_notify(notify(2, ProposalId(2), 7), total),
        Some(Proposal { id: ProposalId(2), value: 7 })
    );
    assert_eq!(learner.committed, vec![ProposalId(2)]);
}

#[test]
fn commit_learned_value_marks_the_id() {
    let mut learner = Learner::new();
    let proposal = learner.commit_learned_value(notify(1, ProposalId(4), 11));
    assert_eq!(proposal, Proposal { id: ProposalId(4), value: 11 });
    assert_eq!(learner.committed, vec![ProposalId(4)]);
}

#[test]
fn a_single_acceptor_cluster_commits_on_one_vote() {
    let mut learner = Learner::new();
    assert_eq!(
        learner.on_accept_notify(notify(0, ProposalId(1), 5), 1),
        Some(Proposal { id: ProposalId(1), value: 5 })
    );
}
