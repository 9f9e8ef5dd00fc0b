//! Mathematical model of the proposal store: lookup by id, the vote
//! step, and the scan that claims accepted proposals for execution.

use vstd::prelude::*;

use crate::types::{
    Identity, Proposal, ProposalStateView, ProposalView, Tokens, Vote,
};

verus! {

/// True when some stored proposal carries `id`.
pub open spec fn has_pid(s: Seq<Proposal>, id: u64) -> bool {
    exists|i: int| 0 <= i < s.len() && s[i].id == id
}

/// The index of the proposal with `id`; meaningful only under `has_pid`.
pub open spec fn pid_index(s: Seq<Proposal>, id: u64) -> int {
    choose|i: int| 0 <= i < s.len() && s[i].id == id
}

/// The stored proposal with `id`, as a view.
pub open spec fn proposal_of(s: Seq<Proposal>, id: u64) -> ProposalView {
    s[pid_index(s, id)]@
}

/// Ids appear in strictly increasing order, so every id is unique and
/// the store keeps submission order.
pub open spec fn ids_strictly_increasing(s: Seq<Proposal>) -> bool {
    forall|i: int, j: int|
        #![trigger s[i].id, s[j].id]
        0 <= i < j < s.len() ==> s[i].id < s[j].id
}

pub proof fn lemma_pid_index_is(s: Seq<Proposal>, id: u64, i: int)
    requires
        ids_strictly_increasing(s),
        0 <= i < s.len(),
        s[i].id == id,
    ensures
        has_pid(s, id),
        pid_index(s, id) == i,
        proposal_of(s, id) == s[i]@,
{
    assert(has_pid(s, id));
    let j = pid_index(s, id);
    assert(0 <= j < s.len() && s[j].id == id);
    if i < j {
        assert(s[i].id < s[j].id);
    } else if j < i {
        assert(s[j].id < s[i].id);
    }
}

/// `p` with its lifecycle state replaced by `st`.
pub open spec fn with_state(p: ProposalView, st: ProposalStateView) -> ProposalView {
    ProposalView {
        id: p.id,
        timestamp: p.timestamp,
        proposer: p.proposer,
        payload: p.payload,
        state: st,
        votes_yes: p.votes_yes,
        votes_no: p.votes_no,
        voters: p.voters,
    }
}

/// Where the tallies take an open proposal: yes is checked against the
/// threshold first, so a vote that pushes both tallies past the
/// threshold settles the proposal as accepted.  A proposal that has
/// already left `Open` keeps its state.
pub open spec fn spec_tally_outcome(
    state: ProposalStateView,
    yes: Tokens,
    no: Tokens,
    threshold: Tokens,
) -> ProposalStateView {
    if !(state is Open) {
        state
    } else if yes >= threshold {
        ProposalStateView::Accepted
    } else if no >= threshold {
        ProposalStateView::Rejected
    } else {
        state
    }
}

/// One vote by `voter` with weight `power`: the chosen tally grows by
/// the weight, the voter is recorded, and the threshold policy of
/// [`spec_tally_outcome`] settles the state.
pub open spec fn spec_vote_step(
    p: ProposalView,
    voter: Identity,
    power: Tokens,
    choice: Vote,
    threshold: Tokens,
) -> ProposalView {
    let yes = if choice is Yes {
        (p.votes_yes + power) as u64
    } else {
        p.votes_yes
    };
    let no = if choice is No {
        (p.votes_no + power) as u64
    } else {
        p.votes_no
    };
    ProposalView {
        id: p.id,
        timestamp: p.timestamp,
        proposer: p.proposer,
        payload: p.payload,
        state: spec_tally_outcome(p.state, yes, no, threshold),
        votes_yes: yes,
        votes_no: no,
        voters: p.voters.push(voter),
    }
}

/// The ids of the proposals of `s` that stand in `Accepted` state, in
/// store order.
pub open spec fn accepted_ids(s: Seq<Proposal>) -> Seq<u64>
    decreases s.len(),
{
    if s.len() == 0 {
        Seq::<u64>::empty()
    } else {
        accepted_ids(s.drop_last()) + if s.last()@.state is Accepted {
            seq![s.last().id]
        } else {
            Seq::<u64>::empty()
        }
    }
}

pub proof fn lemma_accepted_ids_take(s: Seq<Proposal>, i: int)
    requires
        0 <= i < s.len(),
    ensures
        accepted_ids(s.subrange(0, i + 1)) == accepted_ids(s.subrange(0, i)) + (if s[i]@.state
            is Accepted {
            seq![s[i].id]
        } else {
            Seq::<u64>::empty()
        }),
{
    assert(s.subrange(0, i + 1).drop_last() =~= s.subrange(0, i));
    assert(s.subrange(0, i + 1).last() == s[i]);
}

} // verus!
