//! The token ledger: identity -> balance, with non-negative balances,
//! atomic debit/credit pairs, and the fee-burning transfer.
//!
//! The ledger is a vector of accounts with pairwise distinct owners.
//! An identity without an entry has an implicit zero balance.  The sum
//! of all balances never exceeds `u64::MAX`, which rules out overflow
//! when a credit lands.

use vstd::prelude::*;

use crate::types::{Account, DaoError, Identity, Tokens};

verus! {

/// True when some entry of `s` belongs to `who`.
pub open spec fn has_owner(s: Seq<Account>, who: Identity) -> bool {
    exists|i: int| 0 <= i < s.len() && s[i].owner == who
}

/// The index of the entry of `who`; meaningful only under `has_owner`.
pub open spec fn owner_index(s: Seq<Account>, who: Identity) -> int {
    choose|i: int| 0 <= i < s.len() && s[i].owner == who
}

/// The balance of `who`: its entry's tokens, or zero without an entry.
pub open spec fn balance_in(s: Seq<Account>, who: Identity) -> Tokens {
    if has_owner(s, who) {
        s[owner_index(s, who)].tokens
    } else {
        0
    }
}

/// No two entries share an owner.
pub open spec fn owners_distinct(s: Seq<Account>) -> bool {
    forall|i: int, j: int|
        #![trigger s[i].owner, s[j].owner]
        0 <= i < j < s.len() ==> s[i].owner != s[j].owner
}

/// The total supply held by the entries of `s`.
pub open spec fn sum_tokens(s: Seq<Account>) -> int
    decreases s.len(),
{
    if s.len() == 0 {
        0
    } else {
        s[0].tokens + sum_tokens(s.drop_first())
    }
}

/// Every identity other than `who` holds the same balance in `s1` as in `s0`.
pub open spec fn balances_eq_except(s0: Seq<Account>, s1: Seq<Account>, who: Identity) -> bool {
    forall|x: Identity| x != who ==> balance_in(s1, x) == balance_in(s0, x)
}

/// `s0` and `s1` have entries for exactly the same identities.
pub open spec fn same_owners(s0: Seq<Account>, s1: Seq<Account>) -> bool {
    forall|x: Identity| has_owner(s1, x) <==> has_owner(s0, x)
}

pub proof fn lemma_owner_index_is(s: Seq<Account>, who: Identity, i: int)
    requires
        owners_distinct(s),
        0 <= i < s.len(),
        s[i].owner == who,
    ensures
        has_owner(s, who),
        owner_index(s, who) == i,
        balance_in(s, who) == s[i].tokens,
{
    assert(has_owner(s, who));
    let j = owner_index(s, who);
    assert(0 <= j < s.len() && s[j].owner == who);
    if i < j {
        assert(s[i].owner != s[j].owner);
    } else if j < i {
        assert(s[j].owner != s[i].owner);
    }
}

pub proof fn lemma_sum_nonneg(s: Seq<Account>)
    ensures
        sum_tokens(s) >= 0,
    decreases s.len(),
{
    if s.len() > 0 {
        lemma_sum_nonneg(s.drop_first());
    }
}

pub proof fn lemma_sum_update(s: Seq<Account>, i: int, a: Account)
    requires
        0 <= i < s.len(),
    ensures
        sum_tokens(s.update(i, a)) == sum_tokens(s) - s[i].tokens + a.tokens,
    decreases s.len(),
{
    if i == 0 {
        assert(s.update(0, a).drop_first() =~= s.drop_first());
    } else {
        assert(s.update(i, a).drop_first() =~= s.drop_first().update(i - 1, a));
        lemma_sum_update(s.drop_first(), i - 1, a);
    }
}

pub proof fn lemma_sum_push(s: Seq<Account>, a: Account)
    ensures
        sum_tokens(s.push(a)) == sum_tokens(s) + a.tokens,
    decreases s.len(),
{
    if s.len() == 0 {
        assert(s.push(a).drop_first() =~= Seq::<Account>::empty());
        assert(sum_tokens(Seq::<Account>::empty()) == 0);
    } else {
        assert(s.push(a).drop_first() =~= s.drop_first().push(a));
        lemma_sum_push(s.drop_first(), a);
        assert(sum_tokens(s) == s[0].tokens + sum_tokens(s.drop_first()));
    }
}

pub proof fn lemma_element_le_sum(s: Seq<Account>, i: int)
    requires
        0 <= i < s.len(),
    ensures
        s[i].tokens <= sum_tokens(s),
    decreases s.len(),
{
    if i == 0 {
        lemma_sum_nonneg(s.drop_first());
    } else {
        lemma_element_le_sum(s.drop_first(), i - 1);
        assert(s.drop_first()[i - 1] == s[i]);
    }
}

/// Updating the entry at `i` without changing its owner moves exactly
/// that owner's balance and nothing else.
pub proof fn lemma_update_entry(s: Seq<Account>, i: int, a: Account)
    requires
        owners_distinct(s),
        0 <= i < s.len(),
        a.owner == s[i].owner,
    ensures
        owners_distinct(s.update(i, a)),
        same_owners(s, s.update(i, a)),
        balance_in(s.update(i, a), a.owner) == a.tokens,
        balances_eq_except(s, s.update(i, a), a.owner),
{
    let t = s.update(i, a);
    assert(forall|k: int| 0 <= k < t.len() ==> t[k].owner == s[k].owner);
    assert forall|x: Identity| has_owner(t, x) <==> has_owner(s, x) by {
        if has_owner(s, x) {
            let j = owner_index(s, x);
            assert(t[j].owner == x);
        }
        if has_owner(t, x) {
            let j = owner_index(t, x);
            assert(s[j].owner == x);
        }
    }
    lemma_owner_index_is(t, a.owner, i);
    assert forall|x: Identity| x != a.owner implies balance_in(t, x) == balance_in(s, x) by {
        if has_owner(s, x) {
            let j = owner_index(s, x);
            assert(j != i);
            assert(t[j].owner == x);
            lemma_owner_index_is(t, x, j);
        }
    }
}

/// Appending an entry for a fresh owner adds that owner's balance and
/// leaves every other balance alone.
pub proof fn lemma_push_entry(s: Seq<Account>, a: Account)
    requires
        owners_distinct(s),
        !has_owner(s, a.owner),
    ensures
        owners_distinct(s.push(a)),
        forall|x: Identity| has_owner(s.push(a), x) <==> has_owner(s, x) || x == a.owner,
        balance_in(s.push(a), a.owner) == a.tokens,
        balances_eq_except(s, s.push(a), a.owner),
{
    let t = s.push(a);
    assert(forall|k: int| 0 <= k < s.len() ==> t[k] == s[k]);
    assert(t[s.len() as int] == a);
    assert forall|i: int, j: int|
        #![trigger t[i].owner, t[j].owner]
        0 <= i < j < t.len() implies t[i].owner != t[j].owner by {
        if j < s.len() {
            assert(s[i].owner != s[j].owner);
        } else {
            assert(t[j] == a);
            if t[i].owner == a.owner {
                assert(s[i].owner == a.owner);
            }
        }
    }
    assert forall|x: Identity| has_owner(t, x) <==> has_owner(s, x) || x == a.owner by {
        if has_owner(t, x) && x != a.owner {
            let j = owner_index(t, x);
            assert(j < s.len());
            assert(s[j].owner == x);
        }
        if has_owner(s, x) {
            let j = owner_index(s, x);
            assert(t[j].owner == x);
        }
    }
    lemma_owner_index_is(t, a.owner, s.len() as int);
    assert forall|x: Identity| x != a.owner implies balance_in(t, x) == balance_in(s, x) by {
        if has_owner(s, x) {
            let j = owner_index(s, x);
            assert(t[j].owner == x);
            lemma_owner_index_is(t, x, j);
        }
    }
}

/// The token ledger.
pub struct Ledger {
    pub accounts: Vec<Account>,
}

impl Ledger {
    /// Owners are pairwise distinct and the supply fits in a token amount.
    pub open spec fn wf(self) -> bool {
        &&& owners_distinct(self.accounts@)
        &&& sum_tokens(self.accounts@) <= u64::MAX
    }

    pub open spec fn spec_has_account(self, who: Identity) -> bool {
        has_owner(self.accounts@, who)
    }

    pub open spec fn spec_balance_of(self, who: Identity) -> Tokens {
        balance_in(self.accounts@, who)
    }

    pub open spec fn spec_supply(self) -> int {
        sum_tokens(self.accounts@)
    }

    pub fn new() -> (l: Ledger)
        ensures
            l.wf(),
            l.accounts@ == Seq::<Account>::empty(),
    {
        Ledger { accounts: Vec::new() }
    }

    /// Index of the entry of `who`, when one exists.
    fn find(&self, who: Identity) -> (r: Option<usize>)
        requires
            self.wf(),
        ensures
            match r {
                Some(i) => {
                    &&& i < self.accounts@.len()
                    &&& self.accounts@[i as int].owner == who
                    &&& has_owner(self.accounts@, who)
                    &&& owner_index(self.accounts@, who) == i as int
                },
                None => !has_owner(self.accounts@, who),
            },
    {
        let n = self.accounts.len();
        let mut i: usize = 0;
        while i < n
            invariant
                self.wf(),
                n == self.accounts@.len(),
                i <= n,
                forall|j: int| 0 <= j < i ==> self.accounts@[j].owner != who,
            decreases n - i,
        {
            if self.accounts[i].owner == who {
                proof {
                    lemma_owner_index_is(self.accounts@, who, i as int);
                }
                return Some(i);
            }
            i += 1;
        }
        None
    }

    /// The caller's balance, zero when no account exists.
    pub fn balance_of(&self, who: Identity) -> (t: Tokens)
        requires
            self.wf(),
        ensures
            t == self.spec_balance_of(who),
    {
        match self.find(who) {
            Some(i) => self.accounts[i].tokens,
            None => 0,
        }
    }

    /// The caller's balance, or `None` when no account exists.
    pub fn account_tokens(&self, who: Identity) -> (r: Option<Tokens>)
        requires
            self.wf(),
        ensures
            r == if self.spec_has_account(who) {
                Some(self.spec_balance_of(who))
            } else {
                None::<Tokens>
            },
    {
        match self.find(who) {
            Some(i) => Some(self.accounts[i].tokens),
            None => None,
        }
    }

    /// Remove `amount` tokens from `who`, failing without touching
    /// anything when the balance cannot cover it.
    pub fn debit(&mut self, who: Identity, amount: Tokens) -> (r: Result<(), DaoError>)
        requires
            old(self).wf(),
        ensures
            final(self).wf(),
            r is Ok <==> old(self).spec_balance_of(who) >= amount,
            r is Err ==> r == Err::<(), DaoError>(DaoError::InsufficientFunds)
                && *final(self) == *old(self),
            r is Ok ==> {
                &&& final(self).spec_balance_of(who) == old(self).spec_balance_of(who) - amount
                &&& balances_eq_except(old(self).accounts@, final(self).accounts@, who)
                &&& same_owners(old(self).accounts@, final(self).accounts@)
                &&& final(self).spec_supply() == old(self).spec_supply() - amount
                &&& final(self).accounts@ == if has_owner(old(self).accounts@, who) {
                    old(self).accounts@.update(
                        owner_index(old(self).accounts@, who),
                        Account {
                            owner: who,
                            tokens: (balance_in(old(self).accounts@, who) - amount) as u64,
                        },
                    )
                } else {
                    old(self).accounts@
                }
            },
    {
        match self.find(who) {
            Some(i) => {
                let have = self.accounts[i].tokens;
                if have < amount {
                    Err(DaoError::InsufficientFunds)
                } else {
                    let updated = Account { owner: who, tokens: have - amount };
                    proof {
                        lemma_update_entry(self.accounts@, i as int, updated);
                        lemma_sum_update(self.accounts@, i as int, updated);
                    }
                    self.accounts.set(i, updated);
                    Ok(())
                }
            },
            None => {
                if amount == 0 {
                    Ok(())
                } else {
                    Err(DaoError::InsufficientFunds)
                }
            },
        }
    }

    /// Hand `amount` tokens to `who`, creating the account when absent.
    pub fn credit(&mut self, who: Identity, amount: Tokens)
        requires
            old(self).wf(),
            old(self).spec_supply() + amount <= u64::MAX,
        ensures
            final(self).wf(),
            final(self).spec_has_account(who),
            final(self).spec_balance_of(who) == old(self).spec_balance_of(who) + amount,
            balances_eq_except(old(self).accounts@, final(self).accounts@, who),
            forall|x: Identity|
                has_owner(final(self).accounts@, x) <==> has_owner(old(self).accounts@, x) || x
                    == who,
            final(self).spec_supply() == old(self).spec_supply() + amount,
            final(self).accounts@ == if has_owner(old(self).accounts@, who) {
                old(self).accounts@.update(
                    owner_index(old(self).accounts@, who),
                    Account {
                        owner: who,
                        tokens: (balance_in(old(self).accounts@, who) + amount) as u64,
                    },
                )
            } else {
                old(self).accounts@.push(Account { owner: who, tokens: amount })
            },
    {
        match self.find(who) {
            Some(i) => {
                let have = self.accounts[i].tokens;
                proof {
                    lemma_element_le_sum(self.accounts@, i as int);
                }
                let updated = Account { owner: who, tokens: have + amount };
                proof {
                    lemma_update_entry(self.accounts@, i as int, updated);
                    lemma_sum_update(self.accounts@, i as int, updated);
                }
                self.accounts.set(i, updated);
            },
            None => {
                let fresh = Account { owner: who, tokens: amount };
                proof {
                    lemma_push_entry(self.accounts@, fresh);
                    lemma_sum_push(self.accounts@, fresh);
                }
                self.accounts.push(fresh);
            },
        }
    }
    /// Move `amount` tokens from `caller` to `to`, burning the fee.
    ///
    /// The caller must hold an account whose balance covers
    /// `amount + fee`.  On success the caller loses `amount + fee`, the
    /// recipient gains `amount`, and the fee leaves circulation: the
    /// total supply drops by exactly the fee.
    pub fn transfer(&mut self, caller: Identity, to: Identity, amount: Tokens, fee: Tokens) -> (r:
        Result<(), DaoError>)
        requires
            old(self).wf(),
        ensures
            final(self).wf(),
            r is Ok <==> old(self).spec_has_account(caller) && old(self).spec_balance_of(caller)
                >= amount + fee,
            !old(self).spec_has_account(caller) ==> r == Err::<(), DaoError>(DaoError::NoAccount),
            old(self).spec_has_account(caller) && old(self).spec_balance_of(caller) < amount + fee
                ==> r == Err::<(), DaoError>(DaoError::InsufficientFunds),
            r is Err ==> *final(self) == *old(self),
            final(self).accounts@ == spec_apply_transfer(
                old(self).accounts@,
                TransferRequest { caller, to, amount, fee },
            ),
            r is Ok ==> {
                &&& if to == caller {
                    final(self).spec_balance_of(caller) == old(self).spec_balance_of(caller) - fee
                } else {
                    &&& final(self).spec_balance_of(caller) == old(self).spec_balance_of(caller)
                        - (amount + fee)
                    &&& final(self).spec_balance_of(to) == old(self).spec_balance_of(to) + amount
                }
                &&& forall|x: Identity|
                    x != caller && x != to ==> balance_in(final(self).accounts@, x) == balance_in(
                        old(self).accounts@,
                        x,
                    )
                &&& forall|x: Identity|
                    has_owner(final(self).accounts@, x) <==> has_owner(old(self).accounts@, x) || x
                        == to
                &&& final(self).spec_supply() == old(self).spec_supply() - fee
            },
    {
        let bal = match self.account_tokens(caller) {
            None => {
                return Err(DaoError::NoAccount);
            },
            Some(b) => b,
        };
        if bal < amount || bal - amount < fee {
            return Err(DaoError::InsufficientFunds);
        }
        let total = amount + fee;
        let debited = self.debit(caller, total);
        proof {
            assert(debited is Ok);
        }
        self.credit(to, amount);
        Ok(())
    }
}

/// One transfer request, carrying the fee in force when it runs.
#[derive(Clone, Copy, PartialEq, Eq, Structural, Debug)]
pub struct TransferRequest {
    pub caller: Identity,
    pub to: Identity,
    pub amount: Tokens,
    pub fee: Tokens,
}

/// The guard of a transfer: the caller holds an account whose balance
/// covers the amount and the fee.
pub open spec fn transfer_would_succeed(s: Seq<Account>, r: TransferRequest) -> bool {
    has_owner(s, r.caller) && balance_in(s, r.caller) >= r.amount + r.fee
}

/// The ledger after one transfer request: unchanged when the guard
/// fails, otherwise the caller's entry loses `amount + fee` and the
/// recipient's entry (created when absent) gains `amount`.
pub open spec fn spec_apply_transfer(s: Seq<Account>, r: TransferRequest) -> Seq<Account> {
    if transfer_would_succeed(s, r) {
        let debited = s.update(
            owner_index(s, r.caller),
            Account {
                owner: r.caller,
                tokens: (balance_in(s, r.caller) - r.amount - r.fee) as u64,
            },
        );
        if has_owner(debited, r.to) {
            debited.update(
                owner_index(debited, r.to),
                Account { owner: r.to, tokens: (balance_in(debited, r.to) + r.amount) as u64 },
            )
        } else {
            debited.push(Account { owner: r.to, tokens: r.amount })
        }
    } else {
        s
    }
}

/// The ledger after a whole sequence of transfer requests.
pub open spec fn spec_run_transfers(s: Seq<Account>, rs: Seq<TransferRequest>) -> Seq<Account>
    decreases rs.len(),
{
    if rs.len() == 0 {
        s
    } else {
        spec_run_transfers(spec_apply_transfer(s, rs[0]), rs.drop_first())
    }
}

/// The fees burned by the requests of `rs` that succeed, run in order.
pub open spec fn spec_fees_burned(s: Seq<Account>, rs: Seq<TransferRequest>) -> int
    decreases rs.len(),
{
    if rs.len() == 0 {
        0
    } else {
        (if transfer_would_succeed(s, rs[0]) {
            rs[0].fee as int
        } else {
            0
        }) + spec_fees_burned(spec_apply_transfer(s, rs[0]), rs.drop_first())
    }
}

/// One transfer request burns its fee when it succeeds and nothing
/// otherwise, and keeps the ledger well formed.
pub proof fn lemma_apply_transfer_conserves(s: Seq<Account>, r: TransferRequest)
    requires
        owners_distinct(s),
        sum_tokens(s) <= u64::MAX,
    ensures
        owners_distinct(spec_apply_transfer(s, r)),
        sum_tokens(spec_apply_transfer(s, r)) <= u64::MAX,
        sum_tokens(spec_apply_transfer(s, r)) == sum_tokens(s) - (if transfer_would_succeed(
            s,
            r,
        ) {
            r.fee as int
        } else {
            0
        }),
{
    if transfer_would_succeed(s, r) {
        let i = owner_index(s, r.caller);
        assert(0 <= i < s.len() && s[i].owner == r.caller);
        lemma_owner_index_is(s, r.caller, i);
        let a1 = Account {
            owner: r.caller,
            tokens: (balance_in(s, r.caller) - r.amount - r.fee) as u64,
        };
        lemma_update_entry(s, i, a1);
        lemma_sum_update(s, i, a1);
        let debited = s.update(i, a1);
        lemma_sum_nonneg(debited);
        if has_owner(debited, r.to) {
            let j = owner_index(debited, r.to);
            assert(0 <= j < debited.len() && debited[j].owner == r.to);
            lemma_owner_index_is(debited, r.to, j);
            lemma_element_le_sum(debited, j);
            let a2 = Account { owner: r.to, tokens: (balance_in(debited, r.to) + r.amount) as u64 };
            lemma_update_entry(debited, j, a2);
            lemma_sum_update(debited, j, a2);
        } else {
            let a2 = Account { owner: r.to, tokens: r.amount };
            lemma_push_entry(debited, a2);
            lemma_sum_push(debited, a2);
        }
    }
}

/// Conservation: over any sequence of transfers, the initial supply
/// minus the burned fees equals the sum of all account balances.
pub proof fn lemma_transfer_sequence_conservation(s: Seq<Account>, rs: Seq<TransferRequest>)
    requires
        owners_distinct(s),
        sum_tokens(s) <= u64::MAX,
    ensures
        sum_tokens(spec_run_transfers(s, rs)) == sum_tokens(s) - spec_fees_burned(s, rs),
    decreases rs.len(),
{
    if rs.len() > 0 {
        lemma_apply_transfer_conserves(s, rs[0]);
        lemma_transfer_sequence_conservation(spec_apply_transfer(s, rs[0]), rs.drop_first());
    }
}

} // verus!
