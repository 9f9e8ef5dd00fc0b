//! Core data model: identities, token amounts, system parameters,
//! proposals and their lifecycle states, and the error taxonomy.

use vstd::prelude::*;

verus! {

/// An opaque principal, used both as the key of a ledger account and as
/// the actor of a proposal.  The host maps its own principal
/// representation onto this value one for one.
pub type Identity = u64;

/// Unsigned token amount.
pub type Tokens = u64;

/// One ledger entry: an identity together with the tokens it holds.
#[derive(Clone, Copy, PartialEq, Eq, Structural, Debug)]
pub struct Account {
    pub owner: Identity,
    pub tokens: Tokens,
}

/// Mutable configuration of the engine.
#[derive(Clone, Copy, PartialEq, Eq, Structural, Debug)]
pub struct SystemParams {
    /// Fee burned by every successful transfer.
    pub transfer_fee: Tokens,
    /// Token-weighted total a tally must reach to settle a proposal.
    pub proposal_vote_threshold: Tokens,
    /// Deposit debited from the proposer on submission.
    pub proposal_submission_deposit: Tokens,
}

/// Partial update of [`SystemParams`]: present fields overwrite, absent
/// fields are left untouched.
#[derive(Clone, Copy, Debug)]
pub struct UpdateSystemParamsPayload {
    pub transfer_fee: Option<Tokens>,
    pub proposal_vote_threshold: Option<Tokens>,
    pub proposal_submission_deposit: Option<Tokens>,
}

/// A vote choice.
#[derive(Clone, Copy, PartialEq, Eq, Structural, Debug)]
pub enum Vote {
    Yes,
    No,
}

/// Arguments of a transfer request.
#[derive(Clone, Copy, Debug)]
pub struct TransferArgs {
    pub to: Identity,
    pub amount: Tokens,
}

/// Arguments of a vote request.
#[derive(Clone, Copy, Debug)]
pub struct VoteArgs {
    pub proposal_id: u64,
    pub vote: Vote,
}

/// What an accepted proposal asks the host to invoke: a target
/// identity, a method name, and an opaque message.
pub struct ProposalPayload {
    pub canister_id: Identity,
    pub method: String,
    pub message: Vec<u8>,
}

/// Mathematical image of a [`ProposalPayload`].
#[verifier::ext_equal]
pub struct ProposalPayloadView {
    pub canister_id: Identity,
    pub method: Seq<char>,
    pub message: Seq<u8>,
}

impl View for ProposalPayload {
    type V = ProposalPayloadView;

    open spec fn view(&self) -> ProposalPayloadView {
        ProposalPayloadView {
            canister_id: self.canister_id,
            method: self.method@,
            message: self.message@,
        }
    }
}

impl Clone for ProposalPayload {
    fn clone(&self) -> (r: Self)
        ensures
            r@ == self@,
    {
        let message = self.message.clone();
        proof {
            assert(message@ =~= self.message@);
        }
        ProposalPayload { canister_id: self.canister_id, method: self.method.clone(), message }
    }
}

/// Lifecycle state of a proposal.
///
/// The machine only moves forward: `Open` settles to `Accepted` or
/// `Rejected`; the executor takes `Accepted` to `Executing` and then to
/// `Succeeded` or `Failed`.  `Rejected`, `Succeeded` and `Failed` are
/// terminal.
#[derive(PartialEq, Debug)]
pub enum ProposalState {
    Open,
    Accepted,
    Rejected,
    Executing,
    Succeeded,
    Failed(String),
}

/// Mathematical image of a [`ProposalState`].
pub enum ProposalStateView {
    Open,
    Accepted,
    Rejected,
    Executing,
    Succeeded,
    Failed(Seq<char>),
}

impl View for ProposalState {
    type V = ProposalStateView;

    open spec fn view(&self) -> ProposalStateView {
        match self {
            ProposalState::Open => ProposalStateView::Open,
            ProposalState::Accepted => ProposalStateView::Accepted,
            ProposalState::Rejected => ProposalStateView::Rejected,
            ProposalState::Executing => ProposalStateView::Executing,
            ProposalState::Succeeded => ProposalStateView::Succeeded,
            ProposalState::Failed(m) => ProposalStateView::Failed(m@),
        }
    }
}

impl Clone for ProposalState {
    fn clone(&self) -> (r: Self)
        ensures
            r == *self,
    {
        match self {
            ProposalState::Open => ProposalState::Open,
            ProposalState::Accepted => ProposalState::Accepted,
            ProposalState::Rejected => ProposalState::Rejected,
            ProposalState::Executing => ProposalState::Executing,
            ProposalState::Succeeded => ProposalState::Succeeded,
            ProposalState::Failed(m) => ProposalState::Failed(m.clone()),
        }
    }
}

impl ProposalStateView {
    /// No transition leaves a terminal state.
    pub open spec fn is_terminal(self) -> bool {
        self is Rejected || self is Succeeded || self is Failed
    }
}

/// The forward-only transition relation of the proposal lifecycle.
pub open spec fn spec_transition_allowed(from: ProposalStateView, to: ProposalStateView) -> bool {
    match (from, to) {
        (ProposalStateView::Open, ProposalStateView::Accepted) => true,
        (ProposalStateView::Open, ProposalStateView::Rejected) => true,
        (ProposalStateView::Accepted, ProposalStateView::Executing) => true,
        (ProposalStateView::Executing, ProposalStateView::Succeeded) => true,
        (ProposalStateView::Executing, ProposalStateView::Failed(_)) => true,
        _ => false,
    }
}

/// Decides whether the lifecycle may move from `from` to `to`.
pub fn transition_allowed(from: &ProposalState, to: &ProposalState) -> (r: bool)
    ensures
        r == spec_transition_allowed(from@, to@),
{
    match (from, to) {
        (ProposalState::Open, ProposalState::Accepted) => true,
        (ProposalState::Open, ProposalState::Rejected) => true,
        (ProposalState::Accepted, ProposalState::Executing) => true,
        (ProposalState::Executing, ProposalState::Succeeded) => true,
        (ProposalState::Executing, ProposalState::Failed(_)) => true,
        _ => false,
    }
}

/// A governance proposal.
pub struct Proposal {
    pub id: u64,
    pub timestamp: u64,
    pub proposer: Identity,
    pub payload: ProposalPayload,
    pub state: ProposalState,
    pub votes_yes: Tokens,
    pub votes_no: Tokens,
    pub voters: Vec<Identity>,
}

/// Mathematical image of a [`Proposal`].
#[verifier::ext_equal]
pub struct ProposalView {
    pub id: u64,
    pub timestamp: u64,
    pub proposer: Identity,
    pub payload: ProposalPayloadView,
    pub state: ProposalStateView,
    pub votes_yes: Tokens,
    pub votes_no: Tokens,
    pub voters: Seq<Identity>,
}

impl View for Proposal {
    type V = ProposalView;

    open spec fn view(&self) -> ProposalView {
        ProposalView {
            id: self.id,
            timestamp: self.timestamp,
            proposer: self.proposer,
            payload: self.payload@,
            state: self.state@,
            votes_yes: self.votes_yes,
            votes_no: self.votes_no,
            voters: self.voters@,
        }
    }
}

impl Clone for Proposal {
    fn clone(&self) -> (r: Self)
        ensures
            r@ == self@,
    {
        let voters = self.voters.clone();
        proof {
            assert(voters@ =~= self.voters@);
        }
        Proposal {
            id: self.id,
            timestamp: self.timestamp,
            proposer: self.proposer,
            payload: self.payload.clone(),
            state: self.state.clone(),
            votes_yes: self.votes_yes,
            votes_no: self.votes_no,
            voters,
        }
    }
}

/// The snapshot handed in by the durable-state loader at process start.
pub struct BasicDaoStableStorage {
    pub accounts: Vec<Account>,
    pub proposals: Vec<Proposal>,
    pub system_params: SystemParams,
}

/// Typed failures of the synchronous entry points.
#[derive(Clone, Copy, PartialEq, Eq, Structural, Debug)]
pub enum DaoError {
    /// The caller's balance cannot cover the requested amount.
    InsufficientFunds,
    /// The caller holds no ledger account.
    NoAccount,
    /// No proposal carries the requested id.
    NotFound,
    /// The caller already voted on this proposal.
    AlreadyVoted,
}

} // verus!
