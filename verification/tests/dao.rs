//! End-to-end tests of the governance engine.

use basic_dao::service::BasicDaoService;
use basic_dao::types::{
    Account, BasicDaoStableStorage, DaoError, ProposalPayload, ProposalState, SystemParams,
    TransferArgs, UpdateSystemParamsPayload, Vote, VoteArgs,
};

const SELF_ID: u64 = 0;

fn params(fee: u64, threshold: u64, deposit: u64) -> SystemParams {
    SystemParams {
        transfer_fee: fee,
        proposal_vote_threshold: threshold,
        proposal_submission_deposit: deposit,
    }
}

fn service_with(accounts: Vec<(u64, u64)>, p: SystemParams) -> BasicDaoService {
    let accounts = accounts
        .into_iter()
        .map(|(owner, tokens)| Account { owner, tokens })
        .collect();
    BasicDaoService::from(BasicDaoStableStorage {
        accounts,
        proposals: Vec::new(),
        system_params: p,
    })
}

fn payload(target: u64) -> ProposalPayload {
    ProposalPayload {
        canister_id: target,
        method: String::from("run"),
        message: vec![1, 2, 3],
    }
}

fn total_supply(s: &BasicDaoService) -> u128 {
    s.list_accounts().iter().map(|a| a.tokens as u128).sum()
}

#[test]
fn transfer_moves_amount_and_burns_fee() {
    let mut s = service_with(vec![(1, 100), (2, 50)], params(1, 100, 10));
    let before = total_supply(&s);
    let r = s.transfer(1, TransferArgs { to: 2, amount: 10 });
    assert_eq!(r, Ok(()));
    assert_eq!(s.account_balance(1), 89);
    assert_eq!(s.account_balance(2), 60);
    assert_eq!(total_supply(&s), before - 1);
}

#[test]
fn transfer_creates_recipient_account() {
    let mut s = service_with(vec![(1, 100)], params(5, 100, 10));
    let r = s.transfer(1, TransferArgs { to: 7, amount: 20 });
    assert_eq!(r, Ok(()));
    assert_eq!(s.account_balance(1), 75);
    assert_eq!(s.account_balance(7), 20);
    assert_eq!(s.list_accounts().len(), 2);
}

#[test]
fn transfer_conservation_over_sequence() {
    let mut s = service_with(vec![(1, 1000), (2, 500), (3, 200)], params(3, 100, 10));
    let initial = total_supply(&s);
    let mut burned: u128 = 0;
    let steps = [
        (1u64, 2u64, 100u64),
        (2, 3, 400),
        (3, 1, 550),
        (1, 4, 1),
        (2, 2, 5),
    ];
    for (from, to, amount) in steps {
        if s.transfer(from, TransferArgs { to, amount }).is_ok() {
            burned += 3;
        }
    }
    assert_eq!(total_supply(&s), initial - burned);
}

#[test]
fn transfer_boundary_insufficient_by_one() {
    // Balance is exactly amount + fee - 1: the transfer must fail and
    // leave both balances untouched.
    let mut s = service_with(vec![(1, 14), (2, 50)], params(5, 100, 10));
    let r = s.transfer(1, TransferArgs { to: 2, amount: 10 });
    assert_eq!(r, Err(DaoError::InsufficientFunds));
    assert_eq!(s.account_balance(1), 14);
    assert_eq!(s.account_balance(2), 50);
}

#[test]
fn transfer_exact_balance_succeeds() {
    let mut s = service_with(vec![(1, 15), (2, 50)], params(5, 100, 10));
    let r = s.transfer(1, TransferArgs { to: 2, amount: 10 });
    assert_eq!(r, Ok(()));
    assert_eq!(s.account_balance(1), 0);
    assert_eq!(s.account_balance(2), 60);
}

#[test]
fn transfer_without_account_fails() {
    let mut s = service_with(vec![(1, 100)], params(1, 100, 10));
    let r = s.transfer(9, TransferArgs { to: 1, amount: 1 });
    assert_eq!(r, Err(DaoError::NoAccount));
    assert_eq!(s.account_balance(1), 100);
}

#[test]
fn submit_proposal_debits_deposit_and_opens() {
    // Deposit 10 from an account holding exactly 10: the submission
    // succeeds, the balance drops to zero, and the proposal is open.
    let mut s = service_with(vec![(1, 10)], params(1, 100, 10));
    let r = s.submit_proposal(1, 1234, payload(9));
    assert_eq!(r, Ok(1));
    assert_eq!(s.account_balance(1), 0);
    let p = s.get_proposal(1).expect("proposal stored");
    assert_eq!(p.state, ProposalState::Open);
    assert_eq!(p.id, 1);
    assert_eq!(p.timestamp, 1234);
    assert_eq!(p.proposer, 1);
    assert_eq!(p.votes_yes, 0);
    assert_eq!(p.votes_no, 0);
    assert!(p.voters.is_empty());

    // A second identical submission from the now empty account fails.
    let r2 = s.submit_proposal(1, 1235, payload(9));
    assert_eq!(r2, Err(DaoError::InsufficientFunds));
    assert_eq!(s.list_proposals().len(), 1);
}

#[test]
fn submit_proposal_without_account_fails() {
    let mut s = service_with(vec![(1, 10)], params(1, 100, 10));
    let r = s.submit_proposal(5, 0, payload(9));
    assert_eq!(r, Err(DaoError::NoAccount));
    assert!(s.list_proposals().is_empty());
}

#[test]
fn proposal_ids_strictly_increase_across_failures() {
    let mut s = service_with(vec![(1, 40), (2, 0)], params(1, 100, 10));
    let id1 = s.submit_proposal(1, 1, payload(9)).expect("first submission");
    // A failed submission consumes no id.
    assert_eq!(s.submit_proposal(2, 2, payload(9)), Err(DaoError::InsufficientFunds));
    let id2 = s.submit_proposal(1, 3, payload(9)).expect("second submission");
    assert!(id2 > id1);
    assert_eq!(id1, 1);
    assert_eq!(id2, 2);
    // Ids survive a restart: the counter resumes past the highest.
    let stable = BasicDaoStableStorage {
        accounts: s.list_accounts(),
        proposals: s.list_proposals(),
        system_params: s.get_system_params(),
    };
    let mut restored = BasicDaoService::from(stable);
    let id3 = restored.submit_proposal(1, 4, payload(9)).expect("after restart");
    assert_eq!(id3, 3);
}

#[test]
fn vote_threshold_two_voters() {
    // Powers 60 and 50 against threshold 100: the first vote leaves
    // the proposal open, the second pushes yes to 110 and accepts.
    let mut s = service_with(vec![(1, 60), (2, 50), (3, 100)], params(1, 100, 10));
    let id = s.submit_proposal(3, 0, payload(9)).expect("submitted");
    let st1 = s.vote(1, VoteArgs { proposal_id: id, vote: Vote::Yes }).expect("first vote");
    assert_eq!(st1, ProposalState::Open);
    let st2 = s.vote(2, VoteArgs { proposal_id: id, vote: Vote::Yes }).expect("second vote");
    assert_eq!(st2, ProposalState::Accepted);
    let p = s.get_proposal(id).unwrap();
    assert_eq!(p.votes_yes, 110);
    assert_eq!(p.votes_no, 0);
    assert_eq!(p.state, ProposalState::Accepted);
}

#[test]
fn vote_rejection_threshold() {
    let mut s = service_with(vec![(1, 120), (3, 100)], params(1, 100, 10));
    let id = s.submit_proposal(3, 0, payload(9)).expect("submitted");
    let st = s.vote(1, VoteArgs { proposal_id: id, vote: Vote::No }).expect("vote");
    assert_eq!(st, ProposalState::Rejected);
}

#[test]
fn vote_second_vote_always_rejected() {
    let mut s = service_with(vec![(1, 60), (3, 100)], params(1, 1000, 10));
    let id = s.submit_proposal(3, 0, payload(9)).expect("submitted");
    s.vote(1, VoteArgs { proposal_id: id, vote: Vote::Yes }).expect("first vote");
    let before = s.get_proposal(id).unwrap();
    // Same choice.
    let r1 = s.vote(1, VoteArgs { proposal_id: id, vote: Vote::Yes });
    assert_eq!(r1, Err(DaoError::AlreadyVoted));
    // Different choice.
    let r2 = s.vote(1, VoteArgs { proposal_id: id, vote: Vote::No });
    assert_eq!(r2, Err(DaoError::AlreadyVoted));
    let after = s.get_proposal(id).unwrap();
    assert_eq!(after.votes_yes, before.votes_yes);
    assert_eq!(after.votes_no, before.votes_no);
    assert_eq!(after.voters, before.voters);
    assert_eq!(after.state, before.state);
}

#[test]
fn vote_tie_break_resolves_to_accepted() {
    // Drive a proposal into a state where one vote pushes both
    // tallies past the threshold: no already carries 60 under a high
    // threshold, then the threshold is lowered to 50 and a yes vote
    // of 50 lands.  Yes is evaluated first, so the proposal is
    // accepted even though no also stands at the threshold.
    let mut s = service_with(vec![(1, 60), (2, 50), (3, 100)], params(1, 1000, 10));
    let id = s.submit_proposal(3, 0, payload(9)).expect("submitted");
    let st1 = s.vote(1, VoteArgs { proposal_id: id, vote: Vote::No }).expect("no vote");
    assert_eq!(st1, ProposalState::Open);
    s.update_system_params(
        SELF_ID,
        SELF_ID,
        UpdateSystemParamsPayload {
            transfer_fee: None,
            proposal_vote_threshold: Some(50),
            proposal_submission_deposit: None,
        },
    );
    let st2 = s.vote(2, VoteArgs { proposal_id: id, vote: Vote::Yes }).expect("yes vote");
    let p = s.get_proposal(id).unwrap();
    assert!(p.votes_yes >= 50 && p.votes_no >= 50);
    assert_eq!(st2, ProposalState::Accepted);
}

#[test]
fn vote_errors() {
    let mut s = service_with(vec![(1, 60), (3, 100)], params(1, 100, 10));
    let id = s.submit_proposal(3, 0, payload(9)).expect("submitted");
    assert_eq!(
        s.vote(9, VoteArgs { proposal_id: id, vote: Vote::Yes }),
        Err(DaoError::NoAccount)
    );
    assert_eq!(
        s.vote(1, VoteArgs { proposal_id: 42, vote: Vote::Yes }),
        Err(DaoError::NotFound)
    );
}

#[test]
fn voting_power_is_read_at_vote_time() {
    let mut s = service_with(vec![(1, 60), (2, 40), (3, 100)], params(0, 100, 10));
    let id = s.submit_proposal(3, 0, payload(9)).expect("submitted");
    // 2 gains tokens after submission; its vote counts the new balance.
    s.transfer(1, TransferArgs { to: 2, amount: 20 }).expect("transfer");
    let st = s.vote(2, VoteArgs { proposal_id: id, vote: Vote::Yes }).expect("vote");
    assert_eq!(s.get_proposal(id).unwrap().votes_yes, 60);
    assert_eq!(st, ProposalState::Open);
}

#[test]
fn executor_failure_is_terminal_and_touches_no_balance() {
    // An accepted proposal is claimed by a tick, becomes Executing;
    // the external call fails, so it ends Failed with the cause, and
    // no account balance moves.
    let mut s = service_with(vec![(1, 120), (3, 100)], params(1, 100, 10));
    let id = s.submit_proposal(3, 0, payload(9)).expect("submitted");
    s.vote(1, VoteArgs { proposal_id: id, vote: Vote::Yes }).expect("vote");
    assert_eq!(s.get_proposal(id).unwrap().state, ProposalState::Accepted);
    let balances = s.list_accounts();

    let claimed = s.begin_executing();
    assert_eq!(claimed, vec![id]);
    assert_eq!(s.get_proposal(id).unwrap().state, ProposalState::Executing);
    // A second overlapping scan claims nothing.
    assert!(s.begin_executing().is_empty());

    s.record_execution_outcome(id, Err(String::from("rejection code 5: no route")));
    assert_eq!(
        s.get_proposal(id).unwrap().state,
        ProposalState::Failed(String::from("rejection code 5: no route"))
    );
    // Terminal: a later outcome changes nothing.
    s.record_execution_outcome(id, Ok(()));
    assert_eq!(
        s.get_proposal(id).unwrap().state,
        ProposalState::Failed(String::from("rejection code 5: no route"))
    );
    assert_eq!(s.list_accounts(), balances);
}

#[test]
fn executor_success_path() {
    let mut s = service_with(vec![(1, 120), (3, 100)], params(1, 100, 10));
    let id = s.submit_proposal(3, 0, payload(9)).expect("submitted");
    s.vote(1, VoteArgs { proposal_id: id, vote: Vote::Yes }).expect("vote");
    let claimed = s.begin_executing();
    assert_eq!(claimed, vec![id]);
    s.record_execution_outcome(id, Ok(()));
    assert_eq!(s.get_proposal(id).unwrap().state, ProposalState::Succeeded);
}

#[test]
fn update_proposal_state_enforces_forward_moves() {
    let mut s = service_with(vec![(3, 100)], params(1, 100, 10));
    let id = s.submit_proposal(3, 0, payload(9)).expect("submitted");
    // Unknown id: silent no-op.
    s.update_proposal_state(77, ProposalState::Accepted);
    assert_eq!(s.list_proposals().len(), 1);
    // Illegal jump Open -> Succeeded: silent no-op.
    s.update_proposal_state(id, ProposalState::Succeeded);
    assert_eq!(s.get_proposal(id).unwrap().state, ProposalState::Open);
    // Legal moves walk the lifecycle.
    s.update_proposal_state(id, ProposalState::Accepted);
    assert_eq!(s.get_proposal(id).unwrap().state, ProposalState::Accepted);
    s.update_proposal_state(id, ProposalState::Executing);
    s.update_proposal_state(id, ProposalState::Succeeded);
    assert_eq!(s.get_proposal(id).unwrap().state, ProposalState::Succeeded);
    // Terminal states never move again.
    s.update_proposal_state(id, ProposalState::Open);
    assert_eq!(s.get_proposal(id).unwrap().state, ProposalState::Succeeded);
}

#[test]
fn update_system_params_ignores_unprivileged_callers() {
    let mut s = service_with(vec![(1, 10)], params(1, 100, 10));
    let before = s.get_system_params();
    // A non-privileged identity changes nothing and gets no error.
    s.update_system_params(
        42,
        SELF_ID,
        UpdateSystemParamsPayload {
            transfer_fee: Some(999),
            proposal_vote_threshold: Some(999),
            proposal_submission_deposit: Some(999),
        },
    );
    assert_eq!(s.get_system_params(), before);
}

#[test]
fn update_system_params_partial_patch() {
    let mut s = service_with(vec![(1, 10)], params(1, 100, 10));
    s.update_system_params(
        SELF_ID,
        SELF_ID,
        UpdateSystemParamsPayload {
            transfer_fee: Some(7),
            proposal_vote_threshold: None,
            proposal_submission_deposit: None,
        },
    );
    let p = s.get_system_params();
    assert_eq!(p.transfer_fee, 7);
    assert_eq!(p.proposal_vote_threshold, 100);
    assert_eq!(p.proposal_submission_deposit, 10);
}

#[test]
fn queries_reflect_state() {
    let s = service_with(vec![(1, 5), (2, 6)], params(1, 100, 10));
    assert_eq!(s.account_balance(1), 5);
    assert_eq!(s.account_balance(9), 0);
    let accounts = s.list_accounts();
    assert_eq!(accounts.len(), 2);
    assert_eq!(accounts[0], Account { owner: 1, tokens: 5 });
    assert!(s.get_proposal(1).is_none());
    assert!(s.list_proposals().is_empty());
}
