use vstd::prelude::*;
use crate::storage_map::StorageMap;
use crate::support::{Dispatch, DispatchResult, RuntimeError};

verus! {

/// The balance recorded for `who`, zero when no entry exists.
pub open spec fn balance_of(balances: Map<Seq<char>, u128>, who: Seq<char>) -> u128 {
    if balances.contains_key(who) {
        balances[who]
    } else {
        0
    }
}

/// What `transfer` does to the balance map: the new map on success, or the
/// error and an unchanged map.  Both checks read the pre-transfer
/// balances; a self-transfer credits the post-debit balance, so it moves
/// nothing.
pub open spec fn transfer_transition(
    balances: Map<Seq<char>, u128>,
    caller: Seq<char>,
    to: Seq<char>,
    amount: u128,
) -> (Map<Seq<char>, u128>, DispatchResult) {
    let caller_balance = balance_of(balances, caller);
    let to_balance = balance_of(balances, to);
    if caller_balance < amount {
        (balances, Err(RuntimeError::InsufficientFunds))
    } else if to_balance + amount > u128::MAX {
        (balances, Err(RuntimeError::Overflow))
    } else if caller == to {
        (balances.insert(caller, caller_balance), Ok(()))
    } else {
        (
            balances.insert(caller, (caller_balance - amount) as u128).insert(
                to,
                (to_balance + amount) as u128,
            ),
            Ok(()),
        )
    }
}

/// The operations the balances pallet accepts through dispatch.
pub enum Call {
    Transfer { to: String, amount: u128 },
}

impl Clone for Call {
    fn clone(&self) -> (r: Self)
        ensures
            r == *self,
    {
        match self {
            Call::Transfer { to, amount } => Call::Transfer { to: to.clone(), amount: *amount },
        }
    }
}

/// What dispatching one balances call does to the balance map.
pub open spec fn call_transition(
    balances: Map<Seq<char>, u128>,
    caller: Seq<char>,
    call: Call,
) -> (Map<Seq<char>, u128>, DispatchResult) {
    match call {
        Call::Transfer { to, amount } => transfer_transition(balances, caller, to@, amount),
    }
}

/// The balances ledger: accounts mapped to what they hold, with a checked
/// transfer as the only dispatchable mutation.
pub struct Pallet {
    balances: StorageMap<u128>,
}

impl View for Pallet {
    type V = Map<Seq<char>, u128>;

    closed spec fn view(&self) -> Map<Seq<char>, u128> {
        self.balances@
    }
}

impl Pallet {
    pub closed spec fn wf(&self) -> bool {
        self.balances.wf()
    }

    /// An empty ledger: every account holds zero.
    pub fn new() -> (r: Self)
        ensures
            r.wf(),
            r@ == Map::<Seq<char>, u128>::empty(),
    {
        Pallet { balances: StorageMap::new() }
    }

    /// Unconditional overwrite, for out-of-band initialization only; it is
    /// not reachable through dispatch.
    pub fn set_balance(&mut self, who: &String, amount: u128)
        requires
            old(self).wf(),
        ensures
            final(self).wf(),
            final(self)@ == old(self)@.insert(who@, amount),
    {
        self.balances.insert(who.clone(), amount);
    }

    /// The balance of `who`, zero for an account never seen.
    pub fn balance(&self, who: &String) -> (r: u128)
        requires
            self.wf(),
        ensures
            r == balance_of(self@, who@),
    {
        match self.balances.get(who) {
            Some(b) => *b,
            None => 0,
        }
    }

    /// Moves `amount` from `caller` to `to` after checking that the caller
    /// can pay and the recipient can receive; on any failure nothing
    /// changes.
    pub fn transfer(&mut self, caller: &String, to: &String, amount: u128) -> (r: DispatchResult)
        requires
            old(self).wf(),
        ensures
            final(self).wf(),
            final(self)@ == transfer_transition(old(self)@, caller@, to@, amount).0,
            r == transfer_transition(old(self)@, caller@, to@, amount).1,
    {
        let caller_balance = self.balance(caller);
        let to_balance = self.balance(to);
        let new_caller_balance = match caller_balance.checked_sub(amount) {
            Some(b) => b,
            None => {
                return Err(RuntimeError::InsufficientFunds);
            },
        };
        let new_to_balance = match to_balance.checked_add(amount) {
            Some(b) => b,
            None => {
                return Err(RuntimeError::Overflow);
            },
        };
        if *caller == *to {
            self.balances.insert(caller.clone(), caller_balance);
        } else {
            self.balances.insert(caller.clone(), new_caller_balance);
            self.balances.insert(to.clone(), new_to_balance);
        }
        Ok(())
    }
}

impl Dispatch for Pallet {
    type Caller = String;

    type Call = Call;

    open spec fn dispatch_wf(&self) -> bool {
        self.wf()
    }

    fn dispatch(&mut self, caller: String, call: Call) -> (r: DispatchResult)
        ensures
            final(self)@ == call_transition(old(self)@, caller@, call).0,
            r == call_transition(old(self)@, caller@, call).1,
    {
        match call {
            Call::Transfer { to, amount } => self.transfer(&caller, &to, amount),
        }
    }
}

/// An account with no history holds nothing: on the empty ledger every
/// balance reads zero.
pub proof fn lemma_untouched_account_is_empty(who: Seq<char>)
    ensures
        balance_of(Map::<Seq<char>, u128>::empty(), who) == 0,
{
}

/// A transfer of more than the caller holds fails with
/// `InsufficientFunds` and moves nothing.
pub proof fn lemma_insufficient_funds_rejected(
    balances: Map<Seq<char>, u128>,
    caller: Seq<char>,
    to: Seq<char>,
    amount: u128,
)
    requires
        amount > balance_of(balances, caller),
    ensures
        transfer_transition(balances, caller, to, amount).1 == Err::<(), RuntimeError>(
            RuntimeError::InsufficientFunds,
        ),
        transfer_transition(balances, caller, to, amount).0 == balances,
{
}

/// A successful transfer between two distinct accounts debits the caller
/// by exactly `amount`, credits the recipient by exactly `amount`, and
/// conserves the sum of the two balances.
pub proof fn lemma_transfer_moves_and_conserves(
    balances: Map<Seq<char>, u128>,
    caller: Seq<char>,
    to: Seq<char>,
    amount: u128,
)
    requires
        caller != to,
        transfer_transition(balances, caller, to, amount).1 == Ok::<(), RuntimeError>(()),
    ensures
        balance_of(transfer_transition(balances, caller, to, amount).0, caller) == balance_of(
            balances,
            caller,
        ) - amount,
        balance_of(transfer_transition(balances, caller, to, amount).0, to) == balance_of(
            balances,
            to,
        ) + amount,
        balance_of(transfer_transition(balances, caller, to, amount).0, caller) + balance_of(
            transfer_transition(balances, caller, to, amount).0,
            to,
        ) == balance_of(balances, caller) + balance_of(balances, to),
{
}

/// A successful self-transfer leaves the caller's balance unchanged: the
/// credit applies to the post-debit balance, so nothing is double-counted.
pub proof fn lemma_self_transfer_preserves_balance(
    balances: Map<Seq<char>, u128>,
    caller: Seq<char>,
    amount: u128,
)
    requires
        transfer_transition(balances, caller, caller, amount).1 == Ok::<(), RuntimeError>(()),
    ensures
        balance_of(transfer_transition(balances, caller, caller, amount).0, caller) == balance_of(
            balances,
            caller,
        ),
{
}

/// A transfer touches no account other than the caller and the recipient.
pub proof fn lemma_transfer_touches_only_parties(
    balances: Map<Seq<char>, u128>,
    caller: Seq<char>,
    to: Seq<char>,
    amount: u128,
    other: Seq<char>,
)
    requires
        other != caller,
        other != to,
    ensures
        balance_of(transfer_transition(balances, caller, to, amount).0, other) == balance_of(
            balances,
            other,
        ),
{
}

} // verus!
