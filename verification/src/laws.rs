//! Engine-wide laws, proved once and for all over the relations the
//! entry-point contracts are stated in.  The conservation law of the
//! ledger stands beside the ledger itself.

use vstd::prelude::*;

use crate::proposals::{has_pid, lemma_pid_index_is, pid_index, proposal_of, spec_vote_step};
use crate::service::{spec_submitted, spec_voted, BasicDaoService};
use crate::types::{
    spec_transition_allowed, Identity, ProposalPayloadView, ProposalStateView, ProposalView,
    Tokens, Vote,
};

verus! {

/// The lifecycle only moves forward under voting: a vote step either
/// keeps the proposal's state or takes one transition of the
/// forward-only relation — an open proposal settles, a settled one is
/// left alone.
pub proof fn lemma_vote_step_moves_forward(
    p: ProposalView,
    voter: Identity,
    power: Tokens,
    choice: Vote,
    threshold: Tokens,
)
    ensures
        ({
            let q = spec_vote_step(p, voter, power, choice, threshold);
            q.state == p.state || spec_transition_allowed(p.state, q.state)
        }),
{
}

/// Terminal states are never left: no transition of the forward-only
/// relation starts in `Rejected`, `Succeeded` or `Failed`.
pub proof fn lemma_terminal_states_stay(from: ProposalStateView, to: ProposalStateView)
    requires
        spec_transition_allowed(from, to),
    ensures
        !from.is_terminal(),
{
}

/// Voting is idempotent-rejecting: once a vote by `caller` on `pid`
/// has been applied, `caller` stands in that proposal's voter set, so
/// by the contract of `vote` any further vote by the same caller on
/// the same proposal — whatever its choice — returns `AlreadyVoted`
/// and changes nothing.
pub proof fn lemma_vote_idempotent_rejecting(
    pre: BasicDaoService,
    post: BasicDaoService,
    caller: Identity,
    pid: u64,
    choice: Vote,
)
    requires
        pre.wf(),
        spec_voted(pre, post, caller, pid, choice),
    ensures
        has_pid(post.proposals@, pid),
        proposal_of(post.proposals@, pid).voters.contains(caller),
{
    let k = pid_index(pre.proposals@, pid);
    assert(0 <= k < pre.proposals@.len() && pre.proposals@[k].id == pid);
    assert(post.proposals@[k].id == pid);
    assert forall|i: int, j: int|
        #![trigger post.proposals@[i].id, post.proposals@[j].id]
        0 <= i < j < post.proposals@.len() implies post.proposals@[i].id
        < post.proposals@[j].id by {
        assert(post.proposals@[i].id == pre.proposals@[i].id);
        assert(post.proposals@[j].id == pre.proposals@[j].id);
    }
    lemma_pid_index_is(post.proposals@, pid, k);
    let voters = post.proposals@[k]@.voters;
    assert(voters == pre.proposals@[k]@.voters.push(caller));
    assert(voters[voters.len() - 1] == caller);
}

/// Threshold tie-break: when one vote pushes both tallies of an open
/// proposal to the threshold or beyond, the proposal settles as
/// `Accepted` — yes is evaluated before no.
pub proof fn lemma_threshold_tie_break(
    p: ProposalView,
    voter: Identity,
    power: Tokens,
    choice: Vote,
    threshold: Tokens,
)
    requires
        p.state is Open,
        spec_vote_step(p, voter, power, choice, threshold).votes_yes >= threshold,
        spec_vote_step(p, voter, power, choice, threshold).votes_no >= threshold,
    ensures
        spec_vote_step(p, voter, power, choice, threshold).state is Accepted,
{
}

/// Proposal ids are strictly increasing and never reused: of two
/// submissions accepted in turn, the second gets a strictly larger id,
/// and neither id was ever carried by a proposal stored before it.  A
/// failed submission leaves the engine — its id counter included —
/// unchanged by the contract of `submit_proposal`, so it cannot
/// disturb this chain.
pub proof fn lemma_proposal_ids_strictly_increase(
    s0: BasicDaoService,
    s1: BasicDaoService,
    s2: BasicDaoService,
    caller1: Identity,
    now1: u64,
    payload1: ProposalPayloadView,
    id1: u64,
    caller2: Identity,
    now2: u64,
    payload2: ProposalPayloadView,
    id2: u64,
)
    requires
        s0.wf(),
        spec_submitted(s0, s1, caller1, now1, payload1, id1),
        spec_submitted(s1, s2, caller2, now2, payload2, id2),
    ensures
        id1 < id2,
        !has_pid(s0.proposals@, id1),
        !has_pid(s1.proposals@, id2),
{
    let n0 = s0.proposals@.len() as int;
    assert(!has_pid(s0.proposals@, id1)) by {
        if has_pid(s0.proposals@, id1) {
            let i = pid_index(s0.proposals@, id1);
            assert(0 <= i < n0 && s0.proposals@[i].id == id1);
        }
    }
    assert(!has_pid(s1.proposals@, id2)) by {
        if has_pid(s1.proposals@, id2) {
            let i = pid_index(s1.proposals@, id2);
            assert(0 <= i < s1.proposals@.len() && s1.proposals@[i].id == id2);
            if i < n0 {
                assert(s1.proposals@[i] == s0.proposals@[i]);
                assert(s0.proposals@[i].id < s0.next_proposal_id);
            } else {
                assert(s1.proposals@[i]@.id == id1);
            }
        }
    }
}

} // verus!
