//! The learner role: tallies accept notifications and commits once.

use vstd::prelude::*;

use crate::id::ProposalId;
use crate::proposal::Proposal;
use crate::proposer::is_quorum;

pub use crate::message::LearnMessage;

verus! {

/// How many distinct acceptors the tally records for `proposal_id`.
pub open spec fn tally_count(tally: Seq<(ProposalId, u64)>, proposal_id: ProposalId) -> int
    decreases tally.len(),
{
    if tally.len() == 0 {
        0
    } else {
        tally_count(tally.drop_last(), proposal_id) + (if tally.last().0 == proposal_id {
            1int
        } else {
            0int
        })
    }
}

/// The tally after one notification: the reporting acceptor is recorded
/// for the proposal unless it already was — a node reporting the same
/// accept twice is not double-counted.
pub open spec fn step_tally(tally: Seq<(ProposalId, u64)>, message: LearnMessage) -> Seq<
    (ProposalId, u64),
> {
    if tally.contains((message.proposal_id, message.node_id)) {
        tally
    } else {
        tally.push((message.proposal_id, message.node_id))
    }
}

/// Whether one notification makes the learner commit: the updated tally
/// for the proposal reaches a strict majority of `total_acceptors` and the
/// proposal was not committed before.
pub open spec fn step_commit_fires(
    tally: Seq<(ProposalId, u64)>,
    committed: Seq<ProposalId>,
    message: LearnMessage,
    total_acceptors: int,
) -> bool {
    &&& is_quorum(tally_count(step_tally(tally, message), message.proposal_id), total_acceptors)
    &&& !committed.contains(message.proposal_id)
}

/// The committed ids after one notification.
pub open spec fn step_committed(
    tally: Seq<(ProposalId, u64)>,
    committed: Seq<ProposalId>,
    message: LearnMessage,
    total_acceptors: int,
) -> Seq<ProposalId> {
    if step_commit_fires(tally, committed, message, total_acceptors) {
        committed.push(message.proposal_id)
    } else {
        committed
    }
}

/// The learner's state — its tally and its committed ids — after a whole
/// sequence of notifications.
pub open spec fn run_learner(
    tally: Seq<(ProposalId, u64)>,
    committed: Seq<ProposalId>,
    messages: Seq<LearnMessage>,
    total_acceptors: int,
) -> (Seq<(ProposalId, u64)>, Seq<ProposalId>)
    decreases messages.len(),
{
    if messages.len() == 0 {
        (tally, committed)
    } else {
        let prev = run_learner(tally, committed, messages.drop_last(), total_acceptors);
        (
            step_tally(prev.0, messages.last()),
            step_committed(prev.0, prev.1, messages.last(), total_acceptors),
        )
    }
}

/// Whether the notification at position `k` makes the learner commit,
/// given the state the earlier notifications left behind.
pub open spec fn commit_fires_at(
    tally: Seq<(ProposalId, u64)>,
    committed: Seq<ProposalId>,
    messages: Seq<LearnMessage>,
    total_acceptors: int,
    k: int,
) -> bool
    recommends
        0 <= k < messages.len(),
{
    step_commit_fires(
        run_learner(tally, committed, messages.take(k), total_acceptors).0,
        run_learner(tally, committed, messages.take(k), total_acceptors).1,
        messages[k],
        total_acceptors,
    )
}

/// The node that receives notifications from acceptors and commits the
/// value once a majority of nodes has accepted it.
pub struct Learner {
    /// Which acceptors reported accepting which proposal: one entry per
    /// (proposal, acceptor) pair, so an acceptor is never counted twice for
    /// the same proposal.
    pub tally: Vec<(ProposalId, u64)>,
    /// The proposal ids whose value was already handed over for
    /// persistence; a commit happens at most once per id.
    pub committed: Vec<ProposalId>,
}

impl Learner {
    pub fn new() -> (learner: Learner)
        ensures
            learner.wf(),
            learner.tally@ == Seq::<(ProposalId, u64)>::empty(),
            learner.committed@ == Seq::<ProposalId>::empty(),
    {
        Learner { tally: Vec::new(), committed: Vec::new() }
    }

    /// No (proposal, acceptor) pair is tallied twice and no id is marked
    /// committed twice.
    pub open spec fn wf(&self) -> bool {
        &&& self.tally@.no_duplicates()
        &&& self.committed@.no_duplicates()
    }

    /// Take in one accept notification: record the reporting acceptor for
    /// the proposal (idempotently), and when the proposal's tally first
    /// reaches a strict majority of `total_acceptors`, commit — mark the id
    /// committed and hand back the proposal whose value is to be persisted.
    /// Every later notification for an already-committed id is observed and
    /// counted but commits nothing again.
    pub fn on_accept_notify(&mut self, message: LearnMessage, total_acceptors: usize) -> (commit:
        Option<Proposal>)
        requires
            old(self).wf(),
        ensures
            final(self).wf(),
            final(self).tally@ == step_tally(old(self).tally@, message),
            final(self).committed@ == step_committed(
                old(self).tally@,
                old(self).committed@,
                message,
                total_acceptors as int,
            ),
            commit is Some <==> step_commit_fires(
                old(self).tally@,
                old(self).committed@,
                message,
                total_acceptors as int,
            ),
            commit is Some ==> commit == Some(
                Proposal { id: message.proposal_id, value: message.value },
            ),
    {
        let pair = (message.proposal_id, message.node_id);
        if !self.tally_contains(pair) {
            self.tally.push(pair);
        }
        let count = self.count_for(message.proposal_id);
        if count > total_acceptors / 2 && !self.committed_contains(message.proposal_id) {
            let proposal = self.commit_learned_value(message);
            Some(proposal)
        } else {
            None
        }
    }

    /// Commit the value of `received_message`: mark its proposal id
    /// committed and hand back the proposal to write through the
    /// persistence collaborator. The caller has established that the id
    /// was not committed before.
    pub fn commit_learned_value(&mut self, received_message: LearnMessage) -> (proposal: Proposal)
        requires
            old(self).wf(),
            !old(self).committed@.contains(received_message.proposal_id),
        ensures
            final(self).wf(),
            final(self).tally == old(self).tally,
            final(self).committed@ == old(self).committed@.push(received_message.proposal_id),
            proposal == (Proposal {
                id: received_message.proposal_id,
                value: received_message.value,
            }),
    {
        self.committed.push(received_message.proposal_id);
        Proposal { id: received_message.proposal_id, value: received_message.value }
    }

    /// Whether the tally already records this (proposal, acceptor) pair.
    fn tally_contains(&self, pair: (ProposalId, u64)) -> (r: bool)
        ensures
            r == self.tally@.contains(pair),
    {
        let mut i: usize = 0;
        while i < self.tally.len()
            invariant
                0 <= i <= self.tally@.len(),
                forall|k: int| 0 <= k < i ==> self.tally@[k] != pair,
            decreases self.tally@.len() - i,
        {
            let entry = self.tally[i];
            if entry.0 == pair.0 && entry.1 == pair.1 {
                return true;
            }
            i += 1;
        }
        false
    }

    /// Whether this proposal id was committed before.
    fn committed_contains(&self, proposal_id: ProposalId) -> (r: bool)
        ensures
            r == self.committed@.contains(proposal_id),
    {
        let mut i: usize = 0;
        while i < self.committed.len()
            invariant
                0 <= i <= self.committed@.len(),
                forall|k: int| 0 <= k < i ==> self.committed@[k] != proposal_id,
            decreases self.committed@.len() - i,
        {
            if self.committed[i] == proposal_id {
                return true;
            }
            i += 1;
        }
        false
    }

    /// How many distinct acceptors the tally records for `proposal_id`.
    fn count_for(&self, proposal_id: ProposalId) -> (count: usize)
        ensures
            count == tally_count(self.tally@, proposal_id),
    {
        let mut count: usize = 0;
        let mut i: usize = 0;
        proof {
            assert(self.tally@.take(0) =~= Seq::<(ProposalId, u64)>::empty());
        }
        while i < self.tally.len()
            invariant
                0 <= i <= self.tally@.len(),
                count == tally_count(self.tally@.take(i as int), proposal_id),
                count <= i,
            decreases self.tally@.len() - i,
        {
            proof {
                assert(self.tally@.take(i as int + 1).drop_last() =~= self.tally@.take(i as int));
                assert(self.tally@.take(i as int + 1).last() == self.tally@[i as int]);
            }
            if self.tally[i].0 == proposal_id {
                count += 1;
            }
            i += 1;
        }
        proof {
            assert(self.tally@.take(self.tally@.len() as int) =~= self.tally@);
        }
        count
    }
}

/// Running the learner over concatenated notification sequences is running
/// it over the first and then, from the state that leaves, over the second.
proof fn lemma_run_learner_append(
    tally: Seq<(ProposalId, u64)>,
    committed: Seq<ProposalId>,
    first: Seq<LearnMessage>,
    second: Seq<LearnMessage>,
    total_acceptors: int,
)
    ensures
        run_learner(tally, committed, first + second, total_acceptors) == run_learner(
            run_learner(tally, committed, first, total_acceptors).0,
            run_learner(tally, committed, first, total_acceptors).1,
            second,
            total_acceptors,
        ),
    decreases second.len(),
{
    if second.len() == 0 {
        assert(first + second =~= first);
    } else {
        assert((first + second).drop_last() =~= first + second.drop_last());
        lemma_run_learner_append(tally, committed, first, second.drop_last(), total_acceptors);
    }
}

/// Once an id is among the committed ones, it stays there through any
/// further notifications.
proof fn lemma_committed_monotone(
    tally: Seq<(ProposalId, u64)>,
    committed: Seq<ProposalId>,
    messages: Seq<LearnMessage>,
    total_acceptors: int,
    proposal_id: ProposalId,
)
    requires
        committed.contains(proposal_id),
    ensures
        run_learner(tally, committed, messages, total_acceptors).1.contains(proposal_id),
    decreases messages.len(),
{
    if messages.len() > 0 {
        lemma_committed_monotone(
            tally,
            committed,
            messages.drop_last(),
            total_acceptors,
            proposal_id,
        );
        let prev = run_learner(tally, committed, messages.drop_last(), total_acceptors);
        let k = choose|k: int| 0 <= k < prev.1.len() && prev.1[k] == proposal_id;
        assert(step_committed(prev.0, prev.1, messages.last(), total_acceptors)[k]
            == proposal_id);
    }
}

/// Law: idempotent commit. The learner commits at most once per proposal
/// id: once the notification at position `i` commits an id, no later
/// notification for that id commits again, however many keep arriving
/// after quorum.
pub proof fn lemma_commit_at_most_once(
    tally: Seq<(ProposalId, u64)>,
    committed: Seq<ProposalId>,
    messages: Seq<LearnMessage>,
    total_acceptors: int,
    i: int,
    k: int,
)
    requires
        0 <= i < k < messages.len(),
        commit_fires_at(tally, committed, messages, total_acceptors, i),
        messages[k].proposal_id == messages[i].proposal_id,
    ensures
        !commit_fires_at(tally, committed, messages, total_acceptors, k),
{
    let proposal_id = messages[i].proposal_id;
    let after_i = run_learner(tally, committed, messages.take(i + 1), total_acceptors);
    assert(messages.take(i + 1).drop_last() =~= messages.take(i));
    assert(after_i.1.contains(proposal_id)) by {
        let state_i = run_learner(tally, committed, messages.take(i), total_acceptors);
        assert(after_i.1 == step_committed(
            state_i.0,
            state_i.1,
            messages[i],
            total_acceptors,
        ));
        assert(after_i.1.last() == proposal_id);
    }
    assert(messages.take(k) =~= messages.take(i + 1) + messages.subrange(i + 1, k));
    lemma_run_learner_append(
        tally,
        committed,
        messages.take(i + 1),
        messages.subrange(i + 1, k),
        total_acceptors,
    );
    lemma_committed_monotone(
        after_i.0,
        after_i.1,
        messages.subrange(i + 1, k),
        total_acceptors,
        proposal_id,
    );
}

} // verus!
