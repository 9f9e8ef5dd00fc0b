//! The governance engine itself: one state object holding the ledger,
//! the proposal store and the system parameters, with every entry
//! point a method on it.  The host passes identities and time in as
//! plain values and owns the single instance.

use vstd::prelude::*;

use crate::ledger::{
    balance_in, balances_eq_except, has_owner, owner_index, owners_distinct, same_owners,
    spec_apply_transfer, sum_tokens, Ledger, TransferRequest,
};
use crate::proposals::{
    accepted_ids, has_pid, ids_strictly_increasing, lemma_accepted_ids_take, lemma_pid_index_is,
    pid_index, proposal_of, spec_vote_step, with_state,
};
use crate::types::{
    transition_allowed, Account, BasicDaoStableStorage, DaoError, Identity, Proposal,
    ProposalPayload, ProposalState, ProposalStateView, ProposalView, SystemParams, Tokens,
    TransferArgs, UpdateSystemParamsPayload, Vote, VoteArgs, spec_transition_allowed,
};

verus! {

/// The whole engine state.
pub struct BasicDaoService {
    pub ledger: Ledger,
    pub proposals: Vec<Proposal>,
    pub next_proposal_id: u64,
    pub system_params: SystemParams,
}

/// True when every stored proposal id stays below the id counter.
pub open spec fn ids_below_next(s: Seq<Proposal>, next: u64) -> bool {
    forall|i: int| 0 <= i < s.len() ==> #[trigger] s[i].id < next
}

impl BasicDaoService {
    /// Well-formedness: the ledger invariant holds, proposal ids are
    /// strictly increasing, and the id counter stays ahead of every
    /// stored id, starting from one.
    pub open spec fn wf(self) -> bool {
        &&& self.ledger.wf()
        &&& ids_strictly_increasing(self.proposals@)
        &&& ids_below_next(self.proposals@, self.next_proposal_id)
        &&& self.next_proposal_id >= 1
    }

    /// Build the engine from the snapshot the durable-state loader
    /// hands over at process start.  The snapshot must be a state this
    /// engine could have produced: distinct account owners, a supply
    /// that fits a token amount, and strictly increasing proposal ids
    /// with room left in the id space.  The id counter resumes right
    /// after the highest restored id, so ids are never reused across a
    /// restart.
    pub fn from(stable: BasicDaoStableStorage) -> (s: BasicDaoService)
        requires
            owners_distinct(stable.accounts@),
            sum_tokens(stable.accounts@) <= u64::MAX,
            ids_strictly_increasing(stable.proposals@),
            forall|i: int|
                0 <= i < stable.proposals@.len() ==> #[trigger] stable.proposals@[i].id
                    < u64::MAX,
        ensures
            s.wf(),
            s.ledger.accounts@ == stable.accounts@,
            s.proposals@ == stable.proposals@,
            s.system_params == stable.system_params,
            s.next_proposal_id == if stable.proposals@.len() == 0 {
                1u64
            } else {
                (stable.proposals@.last().id + 1) as u64
            },
    {
        let n = stable.proposals.len();
        let next_proposal_id: u64 = if n == 0 {
            1
        } else {
            stable.proposals[n - 1].id + 1
        };
        proof {
            assert forall|i: int|
                0 <= i < stable.proposals@.len() implies #[trigger] stable.proposals@[i].id
                < next_proposal_id by {
                if i < stable.proposals@.len() - 1 {
                    assert(stable.proposals@[i].id < stable.proposals@[
                        stable.proposals@.len() - 1
                    ].id);
                }
            }
        }
        BasicDaoService {
            ledger: Ledger { accounts: stable.accounts },
            proposals: stable.proposals,
            next_proposal_id,
            system_params: stable.system_params,
        }
    }

    /// Unrestricted read of the system parameters.
    pub fn get_system_params(&self) -> (p: SystemParams)
        ensures
            p == self.system_params,
    {
        self.system_params
    }

    /// The caller's balance; an identity without an account holds zero.
    pub fn account_balance(&self, caller: Identity) -> (t: Tokens)
        requires
            self.wf(),
        ensures
            t == self.ledger.spec_balance_of(caller),
    {
        self.ledger.balance_of(caller)
    }

    /// Every account, in ledger order.
    pub fn list_accounts(&self) -> (r: Vec<Account>)
        ensures
            r@ == self.ledger.accounts@,
    {
        let n = self.ledger.accounts.len();
        let mut out: Vec<Account> = Vec::new();
        let mut i: usize = 0;
        while i < n
            invariant
                n == self.ledger.accounts@.len(),
                i <= n,
                out@ == self.ledger.accounts@.subrange(0, i as int),
            decreases n - i,
        {
            out.push(self.ledger.accounts[i]);
            proof {
                assert(out@ =~= self.ledger.accounts@.subrange(0, i + 1));
            }
            i += 1;
        }
        proof {
            assert(out@ =~= self.ledger.accounts@);
        }
        out
    }

    /// The proposal with the given id, when one exists.
    pub fn get_proposal(&self, proposal_id: u64) -> (r: Option<Proposal>)
        requires
            self.wf(),
        ensures
            match r {
                Some(p) => has_pid(self.proposals@, proposal_id) && p@ == proposal_of(
                    self.proposals@,
                    proposal_id,
                ),
                None => !has_pid(self.proposals@, proposal_id),
            },
    {
        match find_pid(&self.proposals, proposal_id) {
            Some(i) => Some(self.proposals[i].clone()),
            None => None,
        }
    }

    /// Every proposal, in store order.
    pub fn list_proposals(&self) -> (r: Vec<Proposal>)
        ensures
            r@.len() == self.proposals@.len(),
            forall|i: int| 0 <= i < r@.len() ==> #[trigger] r@[i]@ == self.proposals@[i]@,
    {
        let n = self.proposals.len();
        let mut out: Vec<Proposal> = Vec::new();
        let mut i: usize = 0;
        while i < n
            invariant
                n == self.proposals@.len(),
                i <= n,
                out@.len() == i,
                forall|j: int| 0 <= j < i ==> #[trigger] out@[j]@ == self.proposals@[j]@,
            decreases n - i,
        {
            out.push(self.proposals[i].clone());
            i += 1;
        }
        out
    }
    /// Move tokens from the caller to `args.to`, burning the transfer
    /// fee in force.  Succeeds exactly when the caller holds an
    /// account whose balance covers `args.amount` plus the fee; a
    /// caller without an account is told `NoAccount`, a short balance
    /// `InsufficientFunds`, and a failed transfer changes nothing.
    pub fn transfer(&mut self, caller: Identity, args: TransferArgs) -> (r: Result<(), DaoError>)
        requires
            old(self).wf(),
        ensures
            final(self).wf(),
            final(self).proposals == old(self).proposals,
            final(self).next_proposal_id == old(self).next_proposal_id,
            final(self).system_params == old(self).system_params,
            r is Ok <==> old(self).ledger.spec_has_account(caller)
                && old(self).ledger.spec_balance_of(caller) >= args.amount
                + old(self).system_params.transfer_fee,
            !old(self).ledger.spec_has_account(caller) ==> r == Err::<(), DaoError>(
                DaoError::NoAccount,
            ),
            old(self).ledger.spec_has_account(caller) && old(self).ledger.spec_balance_of(caller)
                < args.amount + old(self).system_params.transfer_fee ==> r == Err::<(), DaoError>(
                DaoError::InsufficientFunds,
            ),
            r is Err ==> *final(self) == *old(self),
            final(self).ledger.accounts@ == spec_apply_transfer(
                old(self).ledger.accounts@,
                TransferRequest {
                    caller,
                    to: args.to,
                    amount: args.amount,
                    fee: old(self).system_params.transfer_fee,
                },
            ),
            r is Ok ==> final(self).ledger.spec_supply() == old(self).ledger.spec_supply() - old(
                self,
            ).system_params.transfer_fee,
    {
        let fee = self.system_params.transfer_fee;
        self.ledger.transfer(caller, args.to, args.amount, fee)
    }

    /// Submit a proposal: debit the submission deposit from the
    /// proposer, allocate the next id, and store the proposal open,
    /// with empty tallies and no voters.  The deposit is not refunded
    /// later, whatever becomes of the proposal.  A failed submission
    /// changes nothing and consumes no id.
    pub fn submit_proposal(&mut self, caller: Identity, now: u64, payload: ProposalPayload) -> (r:
        Result<u64, DaoError>)
        requires
            old(self).wf(),
            old(self).next_proposal_id < u64::MAX,
        ensures
            final(self).wf(),
            final(self).system_params == old(self).system_params,
            r is Ok <==> old(self).ledger.spec_has_account(caller)
                && old(self).ledger.spec_balance_of(caller) >= old(
                self,
            ).system_params.proposal_submission_deposit,
            !old(self).ledger.spec_has_account(caller) ==> r == Err::<u64, DaoError>(
                DaoError::NoAccount,
            ),
            old(self).ledger.spec_has_account(caller) && old(self).ledger.spec_balance_of(caller)
                < old(self).system_params.proposal_submission_deposit ==> r == Err::<u64, DaoError>(
                DaoError::InsufficientFunds,
            ),
            r is Err ==> *final(self) == *old(self),
            r matches Ok(id) ==> spec_submitted(*old(self), *final(self), caller, now, payload@, id),
    {
        let deposit = self.system_params.proposal_submission_deposit;
        match self.ledger.account_tokens(caller) {
            None => {
                return Err(DaoError::NoAccount);
            },
            Some(b) => {
                if b < deposit {
                    return Err(DaoError::InsufficientFunds);
                }
            },
        }
        let debited = self.ledger.debit(caller, deposit);
        proof {
            assert(debited is Ok);
        }
        let proposal_id = self.next_proposal_id;
        self.next_proposal_id = proposal_id + 1;
        let new_proposal = Proposal {
            id: proposal_id,
            timestamp: now,
            proposer: caller,
            payload,
            state: ProposalState::Open,
            votes_yes: 0,
            votes_no: 0,
            voters: Vec::new(),
        };
        self.proposals.push(new_proposal);
        proof {
            assert(self.proposals@.last()@ =~= ProposalView {
                id: proposal_id,
                timestamp: now,
                proposer: caller,
                payload: self.proposals@.last().payload@,
                state: ProposalStateView::Open,
                votes_yes: 0,
                votes_no: 0,
                voters: Seq::<Identity>::empty(),
            });
        }
        Ok(proposal_id)
    }

    /// Cast a weighted vote on an open proposal.
    ///
    /// The caller's voting power is its ledger balance read now, not a
    /// snapshot taken at submission: influence may change between
    /// votes, by design.  A caller without an account is told
    /// `NoAccount`, an unknown proposal id `NotFound`, and a caller
    /// already in the voter set `AlreadyVoted`; every failure leaves
    /// the engine untouched.  On success the chosen tally grows by the
    /// power, the caller joins the voter set, and — only while the
    /// proposal is still open — the threshold policy settles the
    /// state, yes before no.  The resulting state is returned.
    pub fn vote(&mut self, caller: Identity, args: VoteArgs) -> (r: Result<ProposalState, DaoError>)
        requires
            old(self).wf(),
            vote_tally_fits(*old(self), caller, args.proposal_id, args.vote),
        ensures
            final(self).wf(),
            final(self).ledger == old(self).ledger,
            final(self).next_proposal_id == old(self).next_proposal_id,
            final(self).system_params == old(self).system_params,
            r is Ok <==> old(self).ledger.spec_has_account(caller) && has_pid(
                old(self).proposals@,
                args.proposal_id,
            ) && !proposal_of(old(self).proposals@, args.proposal_id).voters.contains(caller),
            !old(self).ledger.spec_has_account(caller) ==> r == Err::<ProposalState, DaoError>(
                DaoError::NoAccount,
            ),
            old(self).ledger.spec_has_account(caller) && !has_pid(
                old(self).proposals@,
                args.proposal_id,
            ) ==> r == Err::<ProposalState, DaoError>(DaoError::NotFound),
            old(self).ledger.spec_has_account(caller) && has_pid(
                old(self).proposals@,
                args.proposal_id,
            ) && proposal_of(old(self).proposals@, args.proposal_id).voters.contains(caller) ==> r
                == Err::<ProposalState, DaoError>(DaoError::AlreadyVoted),
            r is Err ==> *final(self) == *old(self),
            r is Ok ==> spec_voted(*old(self), *final(self), caller, args.proposal_id, args.vote),
            r matches Ok(st) ==> st@ == spec_vote_step(
                proposal_of(old(self).proposals@, args.proposal_id),
                caller,
                old(self).ledger.spec_balance_of(caller),
                args.vote,
                old(self).system_params.proposal_vote_threshold,
            ).state,
    {
        let voting_power = match self.ledger.account_tokens(caller) {
            None => {
                return Err(DaoError::NoAccount);
            },
            Some(power) => power,
        };
        let threshold = self.system_params.proposal_vote_threshold;
        let k = match find_pid(&self.proposals, args.proposal_id) {
            None => {
                return Err(DaoError::NotFound);
            },
            Some(k) => k,
        };
        let ghost pre_view = self.proposals@[k as int]@;
        let mut p = self.proposals[k].clone();
        if contains_identity(&p.voters, caller) {
            return Err(DaoError::AlreadyVoted);
        }
        match args.vote {
            Vote::Yes => {
                p.votes_yes = p.votes_yes + voting_power;
            },
            Vote::No => {
                p.votes_no = p.votes_no + voting_power;
            },
        }
        p.voters.push(caller);
        let is_open = match &p.state {
            ProposalState::Open => true,
            _ => false,
        };
        if is_open {
            if p.votes_yes >= threshold {
                p.state = ProposalState::Accepted;
            } else if p.votes_no >= threshold {
                p.state = ProposalState::Rejected;
            }
        }
        proof {
            assert(p@ =~= spec_vote_step(
                pre_view,
                caller,
                old(self).ledger.spec_balance_of(caller),
                args.vote,
                old(self).system_params.proposal_vote_threshold,
            ));
        }
        let result_state = p.state.clone();
        self.proposals.set(k, p);
        Ok(result_state)
    }

    /// Administrative lifecycle move.  The store is untouched when the
    /// id is unknown, and — closing a gap the raw override would leave
    /// — when the requested move is not a forward step of the
    /// lifecycle; both cases are silent.  Otherwise only the state of
    /// that one proposal changes.
    pub fn update_proposal_state(&mut self, proposal_id: u64, new_state: ProposalState)
        requires
            old(self).wf(),
        ensures
            final(self).wf(),
            final(self).ledger == old(self).ledger,
            final(self).next_proposal_id == old(self).next_proposal_id,
            final(self).system_params == old(self).system_params,
            !has_pid(old(self).proposals@, proposal_id) ==> *final(self) == *old(self),
            has_pid(old(self).proposals@, proposal_id) && !spec_transition_allowed(
                proposal_of(old(self).proposals@, proposal_id).state,
                new_state@,
            ) ==> *final(self) == *old(self),
            has_pid(old(self).proposals@, proposal_id) && spec_transition_allowed(
                proposal_of(old(self).proposals@, proposal_id).state,
                new_state@,
            ) ==> {
                &&& final(self).proposals@.len() == old(self).proposals@.len()
                &&& forall|i: int|
                    0 <= i < old(self).proposals@.len() && i != pid_index(
                        old(self).proposals@,
                        proposal_id,
                    ) ==> #[trigger] final(self).proposals@[i] == old(self).proposals@[i]
                &&& final(self).proposals@[pid_index(old(self).proposals@, proposal_id)]@
                    == with_state(proposal_of(old(self).proposals@, proposal_id), new_state@)
            },
    {
        let k = match find_pid(&self.proposals, proposal_id) {
            None => {
                return ;
            },
            Some(k) => k,
        };
        let allowed = transition_allowed(&self.proposals[k].state, &new_state);
        if !allowed {
            return ;
        }
        let ghost pre_view = self.proposals@[k as int]@;
        let mut p = self.proposals[k].clone();
        p.state = new_state;
        proof {
            assert(p@ =~= with_state(pre_view, p.state@));
        }
        self.proposals.set(k, p);
    }

    /// The executor's scan phase: claim every proposal standing in
    /// `Accepted` by flipping it to `Executing`, in one synchronous
    /// pass, and hand back their ids in store order.  After this
    /// returns, no proposal is left in `Accepted`, so an overlapping
    /// tick cannot claim a proposal twice.
    pub fn begin_executing(&mut self) -> (ids: Vec<u64>)
        requires
            old(self).wf(),
        ensures
            final(self).wf(),
            final(self).ledger == old(self).ledger,
            final(self).next_proposal_id == old(self).next_proposal_id,
            final(self).system_params == old(self).system_params,
            final(self).proposals@.len() == old(self).proposals@.len(),
            forall|i: int|
                0 <= i < old(self).proposals@.len() ==> #[trigger] final(self).proposals@[i]@
                    == if old(self).proposals@[i]@.state is Accepted {
                    with_state(old(self).proposals@[i]@, ProposalStateView::Executing)
                } else {
                    old(self).proposals@[i]@
                },
            ids@ == accepted_ids(old(self).proposals@),
    {
        let n = self.proposals.len();
        let mut ids: Vec<u64> = Vec::new();
        let mut i: usize = 0;
        while i < n
            invariant
                old(self).wf(),
                n == old(self).proposals@.len(),
                i <= n,
                self.ledger == old(self).ledger,
                self.next_proposal_id == old(self).next_proposal_id,
                self.system_params == old(self).system_params,
                self.proposals@.len() == n,
                forall|j: int|
                    0 <= j < n ==> #[trigger] self.proposals@[j].id == old(self).proposals@[j].id,
                forall|j: int|
                    i <= j < n ==> #[trigger] self.proposals@[j] == old(self).proposals@[j],
                forall|j: int|
                    0 <= j < i ==> #[trigger] self.proposals@[j]@ == if old(
                        self,
                    ).proposals@[j]@.state is Accepted {
                        with_state(old(self).proposals@[j]@, ProposalStateView::Executing)
                    } else {
                        old(self).proposals@[j]@
                    },
                ids@ == accepted_ids(old(self).proposals@.subrange(0, i as int)),
            decreases n - i,
        {
            let is_accepted = match &self.proposals[i].state {
                ProposalState::Accepted => true,
                _ => false,
            };
            proof {
                lemma_accepted_ids_take(old(self).proposals@, i as int);
            }
            if is_accepted {
                let ghost pre_view = self.proposals@[i as int]@;
                let mut p = self.proposals[i].clone();
                let id = p.id;
                p.state = ProposalState::Executing;
                proof {
                    assert(p@ =~= with_state(pre_view, ProposalStateView::Executing));
                }
                self.proposals.set(i, p);
                ids.push(id);
                proof {
                    assert(ids@ =~= accepted_ids(old(self).proposals@.subrange(0, i as int))
                        + seq![old(self).proposals@[i as int].id]);
                }
            }
            i += 1;
        }
        proof {
            assert(old(self).proposals@.subrange(0, n as int) =~= old(self).proposals@);
        }
        ids
    }

    /// Record the outcome the host got back for a proposal it was
    /// executing: success settles it as `Succeeded`, failure as
    /// `Failed` carrying the cause.  Only a proposal standing in
    /// `Executing` is touched; failures are terminal, there is no
    /// retry.
    pub fn record_execution_outcome(&mut self, proposal_id: u64, outcome: Result<(), String>)
        requires
            old(self).wf(),
        ensures
            final(self).wf(),
            final(self).ledger == old(self).ledger,
            final(self).next_proposal_id == old(self).next_proposal_id,
            final(self).system_params == old(self).system_params,
            !has_pid(old(self).proposals@, proposal_id) ==> *final(self) == *old(self),
            has_pid(old(self).proposals@, proposal_id) && !(proposal_of(
                old(self).proposals@,
                proposal_id,
            ).state is Executing) ==> *final(self) == *old(self),
            has_pid(old(self).proposals@, proposal_id) && proposal_of(
                old(self).proposals@,
                proposal_id,
            ).state is Executing ==> {
                &&& final(self).proposals@.len() == old(self).proposals@.len()
                &&& forall|i: int|
                    0 <= i < old(self).proposals@.len() && i != pid_index(
                        old(self).proposals@,
                        proposal_id,
                    ) ==> #[trigger] final(self).proposals@[i] == old(self).proposals@[i]
                &&& final(self).proposals@[pid_index(old(self).proposals@, proposal_id)]@
                    == with_state(
                    proposal_of(old(self).proposals@, proposal_id),
                    outcome_state_view(outcome),
                )
            },
    {
        let settled = match outcome {
            Ok(_) => ProposalState::Succeeded,
            Err(msg) => ProposalState::Failed(msg),
        };
        self.update_proposal_state(proposal_id, settled);
    }

    /// Apply a partial parameter patch.  Only the engine's own
    /// identity may change anything: any other caller is silently
    /// ignored, with no error signalled, by design.  Present fields
    /// overwrite, absent fields stay.
    pub fn update_system_params(
        &mut self,
        caller: Identity,
        self_id: Identity,
        payload: UpdateSystemParamsPayload,
    )
        requires
            old(self).wf(),
        ensures
            final(self).wf(),
            caller != self_id ==> *final(self) == *old(self),
            caller == self_id ==> {
                &&& final(self).ledger == old(self).ledger
                &&& final(self).proposals == old(self).proposals
                &&& final(self).next_proposal_id == old(self).next_proposal_id
                &&& final(self).system_params == spec_apply_params_patch(
                    old(self).system_params,
                    payload,
                )
            },
    {
        if caller != self_id {
            return ;
        }
        if let Some(transfer_fee) = payload.transfer_fee {
            self.system_params.transfer_fee = transfer_fee;
        }
        if let Some(proposal_vote_threshold) = payload.proposal_vote_threshold {
            self.system_params.proposal_vote_threshold = proposal_vote_threshold;
        }
        if let Some(proposal_submission_deposit) = payload.proposal_submission_deposit {
            self.system_params.proposal_submission_deposit = proposal_submission_deposit;
        }
    }
}

/// The machine-width guard of a vote: when the vote would be accepted,
/// the chosen tally plus the caller's voting power must fit a token
/// amount.  The host checks this before calling in; it holds trivially
/// whenever the tally and the power are realistic.
pub open spec fn vote_tally_fits(
    s: BasicDaoService,
    caller: Identity,
    pid: u64,
    choice: Vote,
) -> bool {
    s.ledger.spec_has_account(caller) && has_pid(s.proposals@, pid) && !proposal_of(
        s.proposals@,
        pid,
    ).voters.contains(caller) ==> (if choice is Yes {
        proposal_of(s.proposals@, pid).votes_yes + s.ledger.spec_balance_of(caller) <= u64::MAX
    } else {
        proposal_of(s.proposals@, pid).votes_no + s.ledger.spec_balance_of(caller) <= u64::MAX
    })
}

/// What a successful vote does: exactly the proposal voted on moves,
/// by one [`spec_vote_step`] taken with the caller's balance as power
/// and the threshold in force.
pub open spec fn spec_voted(
    pre: BasicDaoService,
    post: BasicDaoService,
    caller: Identity,
    pid: u64,
    choice: Vote,
) -> bool {
    &&& has_pid(pre.proposals@, pid)
    &&& post.proposals@.len() == pre.proposals@.len()
    &&& forall|i: int|
        0 <= i < pre.proposals@.len() && i != pid_index(pre.proposals@, pid)
            ==> #[trigger] post.proposals@[i] == pre.proposals@[i]
    &&& post.proposals@[pid_index(pre.proposals@, pid)]@ == spec_vote_step(
        proposal_of(pre.proposals@, pid),
        caller,
        pre.ledger.spec_balance_of(caller),
        choice,
        pre.system_params.proposal_vote_threshold,
    )
}

/// The terminal state a recorded outcome settles a proposal into.
pub open spec fn outcome_state_view(outcome: Result<(), String>) -> ProposalStateView {
    match outcome {
        Ok(_) => ProposalStateView::Succeeded,
        Err(m) => ProposalStateView::Failed(m@),
    }
}

/// A parameter patch, applied: present fields overwrite, absent fields
/// keep their standing value.
pub open spec fn spec_apply_params_patch(
    p: SystemParams,
    patch: UpdateSystemParamsPayload,
) -> SystemParams {
    SystemParams {
        transfer_fee: match patch.transfer_fee {
            Some(v) => v,
            None => p.transfer_fee,
        },
        proposal_vote_threshold: match patch.proposal_vote_threshold {
            Some(v) => v,
            None => p.proposal_vote_threshold,
        },
        proposal_submission_deposit: match patch.proposal_submission_deposit {
            Some(v) => v,
            None => p.proposal_submission_deposit,
        },
    }
}

/// What a successful submission does: `id` is the id the counter held,
/// the counter moves one past it, the stored proposals gain exactly
/// one open proposal carrying `id`, the payload and the submission
/// time, and the proposer's balance drops by the deposit in force,
/// which leaves circulation.
pub open spec fn spec_submitted(
    pre: BasicDaoService,
    post: BasicDaoService,
    caller: Identity,
    now: u64,
    payload: crate::types::ProposalPayloadView,
    id: u64,
) -> bool {
    &&& id == pre.next_proposal_id
    &&& post.next_proposal_id == pre.next_proposal_id + 1
    &&& post.proposals@.len() == pre.proposals@.len() + 1
    &&& forall|i: int|
        0 <= i < pre.proposals@.len() ==> #[trigger] post.proposals@[i] == pre.proposals@[i]
    &&& post.proposals@.last()@ == ProposalView {
        id,
        timestamp: now,
        proposer: caller,
        payload,
        state: ProposalStateView::Open,
        votes_yes: 0,
        votes_no: 0,
        voters: Seq::<Identity>::empty(),
    }
    &&& post.ledger.spec_balance_of(caller) == pre.ledger.spec_balance_of(caller)
        - pre.system_params.proposal_submission_deposit
    &&& balances_eq_except(pre.ledger.accounts@, post.ledger.accounts@, caller)
    &&& same_owners(pre.ledger.accounts@, post.ledger.accounts@)
    &&& post.ledger.spec_supply() == pre.ledger.spec_supply()
        - pre.system_params.proposal_submission_deposit
    &&& post.ledger.accounts@ == pre.ledger.accounts@.update(
        owner_index(pre.ledger.accounts@, caller),
        Account {
            owner: caller,
            tokens: (balance_in(pre.ledger.accounts@, caller)
                - pre.system_params.proposal_submission_deposit) as u64,
        },
    )
}

/// Index of the proposal carrying `id`, when one exists.
fn find_pid(v: &Vec<Proposal>, id: u64) -> (r: Option<usize>)
    requires
        ids_strictly_increasing(v@),
    ensures
        match r {
            Some(i) => {
                &&& i < v@.len()
                &&& v@[i as int].id == id
                &&& has_pid(v@, id)
                &&& pid_index(v@, id) == i as int
            },
            None => !has_pid(v@, id),
        },
{
    let n = v.len();
    let mut i: usize = 0;
    while i < n
        invariant
            ids_strictly_increasing(v@),
            n == v@.len(),
            i <= n,
            forall|j: int| 0 <= j < i ==> v@[j].id != id,
        decreases n - i,
    {
        if v[i].id == id {
            proof {
                lemma_pid_index_is(v@, id, i as int);
            }
            return Some(i);
        }
        i += 1;
    }
    None
}

/// True when `x` stands in `v`.
fn contains_identity(v: &Vec<Identity>, x: Identity) -> (b: bool)
    ensures
        b == v@.contains(x),
{
    let n = v.len();
    let mut i: usize = 0;
    while i < n
        invariant
            n == v@.len(),
            i <= n,
            forall|j: int| 0 <= j < i ==> v@[j] != x,
        decreases n - i,
    {
        if v[i] == x {
            return true;
        }
        i += 1;
    }
    false
}

} // verus!
