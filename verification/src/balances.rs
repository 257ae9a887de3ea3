//! The account ledger: a balance per account and checked transfers between accounts.

use crate::numeric::{checked_add_u128, checked_sub_u128, zero_u128};
use crate::storage::StorageMap;
use crate::support::{Dispatch, DispatchError, DispatchResult};
use crate::types::{AccountId, Tokens};
use vstd::prelude::*;

verus! {

/// The ledger as a mathematical value: balances by account name.
pub type Ledger = Map<Seq<char>, Tokens>;

/// The balance of `who`: the stored amount, or 0 where nothing is stored.
pub open spec fn balance_of(ledger: Ledger, who: Seq<char>) -> nat {
    if ledger.contains_key(who) {
        ledger[who] as nat
    } else {
        0
    }
}

/// Whether moving `amount` from `from` to `to` is accepted, and the error if it is not.
/// The sender's funds are examined first, then the receiver's headroom.
pub open spec fn transfer_result(
    ledger: Ledger,
    from: Seq<char>,
    to: Seq<char>,
    amount: Tokens,
) -> DispatchResult {
    if balance_of(ledger, from) < amount {
        Err(DispatchError::InsufficientFunds)
    } else if balance_of(ledger, to) + amount > u128::MAX {
        Err(DispatchError::Overflow)
    } else {
        Ok(())
    }
}

/// The ledger after a transfer was requested. A rejected transfer leaves it
/// as it was, and so does a transfer from an account to itself: what it
/// would take and what it would give are the same tokens. An accepted
/// transfer between two accounts stores the debited balance of `from` and
/// the credited balance of `to`.
pub open spec fn transfer_ledger(
    ledger: Ledger,
    from: Seq<char>,
    to: Seq<char>,
    amount: Tokens,
) -> Ledger {
    if transfer_result(ledger, from, to, amount) is Ok && from != to {
        ledger.insert(from, (balance_of(ledger, from) - amount) as Tokens).insert(
            to,
            (balance_of(ledger, to) + amount) as Tokens,
        )
    } else {
        ledger
    }
}

/// The calls the ledger accepts from outside.
#[derive(Debug)]
pub enum Call {
    /// Move `amount` from the caller to `to`.
    Transfer { to: AccountId, amount: Tokens },
}

/// The result of dispatching `call` for `caller` on `ledger`.
pub open spec fn dispatch_result(ledger: Ledger, caller: Seq<char>, call: Call) -> DispatchResult {
    match call {
        Call::Transfer { to, amount } => transfer_result(ledger, caller, to@, amount),
    }
}

/// The ledger after `call` was dispatched for `caller`.
pub open spec fn dispatch_ledger(ledger: Ledger, caller: Seq<char>, call: Call) -> Ledger {
    match call {
        Call::Transfer { to, amount } => transfer_ledger(ledger, caller, to@, amount),
    }
}

/// The balances pallet. It keeps what every account owns.
#[derive(Debug)]
pub struct Pallet {
    balances: StorageMap<Tokens>,
}

impl View for Pallet {
    type V = Ledger;

    closed spec fn view(&self) -> Ledger {
        self.balances@
    }
}

impl Pallet {
    /// A ledger in which every account has balance 0.
    pub fn new() -> (r: Self)
        ensures
            r@ == Ledger::empty(),
            forall|who: Seq<char>| balance_of(r@, who) == 0,
    {
        Pallet { balances: StorageMap::new() }
    }

    /// Sets the balance of `who` to `value`, whatever it was.
    pub fn set_balance(&mut self, who: &AccountId, value: Tokens)
        ensures
            final(self)@ == old(self)@.insert(who@, value),
    {
        self.balances.insert(who.clone(), value);
    }

    /// The balance of `who`; 0 for an account that was never credited.
    pub fn get_balance(&self, who: &AccountId) -> (r: Tokens)
        ensures
            r == balance_of(self@, who@),
    {
        match self.balances.get(who) {
            Some(value) => *value,
            None => zero_u128(),
        }
    }

    /// Moves `amount` from `caller` to `to`. Both new balances are computed
    /// before either is written, so a rejected transfer changes nothing. No
    /// transfer creates or destroys tokens; one from an account to itself is
    /// examined like any other and, where accepted, changes nothing.
    pub fn transfer(&mut self, caller: AccountId, to: AccountId, amount: Tokens) -> (r:
        DispatchResult)
        ensures
            r == transfer_result(old(self)@, caller@, to@, amount),
            final(self)@ == transfer_ledger(old(self)@, caller@, to@, amount),
            r is Err ==> final(self)@ == old(self)@,
            caller@ == to@ ==> final(self)@ == old(self)@,
            balance_of(final(self)@, caller@) + balance_of(final(self)@, to@) == balance_of(
                old(self)@,
                caller@,
            ) + balance_of(old(self)@, to@),
            forall|other: Seq<char>|
                other != caller@ && other != to@ ==> balance_of(final(self)@, other)
                    == balance_of(old(self)@, other),
    {
        let from_balance = self.get_balance(&caller);
        let to_balance = self.get_balance(&to);

        let new_from_balance = match checked_sub_u128(from_balance, amount) {
            Some(value) => value,
            None => {
                return Err(DispatchError::InsufficientFunds);
            },
        };
        let new_to_balance = match checked_add_u128(to_balance, amount) {
            Some(value) => value,
            None => {
                return Err(DispatchError::Overflow);
            },
        };

        if caller != to {
            self.set_balance(&caller, new_from_balance);
            self.set_balance(&to, new_to_balance);
        }

        Ok(())
    }
}

impl Dispatch for Pallet {
    type Caller = AccountId;

    type Call = Call;

    open spec fn result_of(state: Ledger, caller: AccountId, call: Call) -> DispatchResult {
        dispatch_result(state, caller@, call)
    }

    open spec fn state_after(state: Ledger, caller: AccountId, call: Call) -> Ledger {
        dispatch_ledger(state, caller@, call)
    }

    /// Forwards `call` to the method that implements it, with `caller` as its first argument.
    fn dispatch(&mut self, caller: AccountId, call: Call) -> (r: DispatchResult)
        ensures
            r == dispatch_result(old(self)@, caller@, call),
            final(self)@ == dispatch_ledger(old(self)@, caller@, call),
    {
        match call {
            Call::Transfer { to, amount } => self.transfer(caller, to, amount),
        }
    }
}

/// An accepted transfer between two different accounts moves `amount` from
/// one to the other: the sender has that much less and the receiver that
/// much more.
pub proof fn lemma_transfer_moves(ledger: Ledger, from: Seq<char>, to: Seq<char>, amount: Tokens)
    requires
        from != to,
        transfer_result(ledger, from, to, amount) is Ok,
    ensures
        balance_of(transfer_ledger(ledger, from, to, amount), from) == balance_of(ledger, from)
            - amount,
        balance_of(transfer_ledger(ledger, from, to, amount), to) == balance_of(ledger, to)
            + amount,
{
}

/// No transfer creates or destroys tokens. Whatever is requested, and
/// whether it is accepted or rejected, the balances of the two accounts
/// add up to what they added up to before, and the balance of every other
/// account is what it was.
pub proof fn lemma_transfer_conserves(
    ledger: Ledger,
    from: Seq<char>,
    to: Seq<char>,
    amount: Tokens,
    other: Seq<char>,
)
    ensures
        balance_of(transfer_ledger(ledger, from, to, amount), from) + balance_of(
            transfer_ledger(ledger, from, to, amount),
            to,
        ) == balance_of(ledger, from) + balance_of(ledger, to),
        other != from && other != to ==> balance_of(
            transfer_ledger(ledger, from, to, amount),
            other,
        ) == balance_of(ledger, other),
{
}

/// A transfer from an account to itself leaves the ledger as it was.
pub proof fn lemma_transfer_to_oneself_is_noop(ledger: Ledger, who: Seq<char>, amount: Tokens)
    ensures
        transfer_ledger(ledger, who, who, amount) == ledger,
{
}

/// A rejected transfer changes nothing.
pub proof fn lemma_failed_transfer_is_noop(
    ledger: Ledger,
    from: Seq<char>,
    to: Seq<char>,
    amount: Tokens,
)
    requires
        transfer_result(ledger, from, to, amount) is Err,
    ensures
        transfer_ledger(ledger, from, to, amount) == ledger,
{
}

/// One operation on the ledger, as a mathematical value.
pub enum LedgerOp {
    /// The balance of `who` is set to `value`.
    SetBalance { who: Seq<char>, value: Tokens },
    /// A transfer of `amount` from `from` to `to` is requested.
    Transfer { from: Seq<char>, to: Seq<char>, amount: Tokens },
}

/// Whether `op` names `who` as the account it sets, debits or credits.
pub open spec fn touches(op: LedgerOp, who: Seq<char>) -> bool {
    match op {
        LedgerOp::SetBalance { who: account, .. } => account == who,
        LedgerOp::Transfer { from, to, .. } => from == who || to == who,
    }
}

/// The ledger after `op`.
pub open spec fn ledger_step(ledger: Ledger, op: LedgerOp) -> Ledger {
    match op {
        LedgerOp::SetBalance { who, value } => ledger.insert(who, value),
        LedgerOp::Transfer { from, to, amount } => transfer_ledger(ledger, from, to, amount),
    }
}

/// The ledger after the operations `ops` ran in order.
pub open spec fn ledger_after(ledger: Ledger, ops: Seq<LedgerOp>) -> Ledger
    decreases ops.len(),
{
    if ops.len() == 0 {
        ledger
    } else {
        ledger_step(ledger_after(ledger, ops.drop_last()), ops.last())
    }
}

/// Operations that do not touch an account leave its balance as it was. In
/// particular an account of a new ledger has balance 0 until an operation
/// touches it.
pub proof fn lemma_untouched_balance(ledger: Ledger, ops: Seq<LedgerOp>, who: Seq<char>)
    requires
        forall|i: int| 0 <= i < ops.len() ==> !touches(#[trigger] ops[i], who),
    ensures
        balance_of(ledger_after(ledger, ops), who) == balance_of(ledger, who),
        balance_of(ledger_after(Ledger::empty(), ops), who) == 0,
    decreases ops.len(),
{
    if ops.len() > 0 {
        assert(!touches(ops[ops.len() - 1], who));
        lemma_untouched_balance(ledger, ops.drop_last(), who);
        lemma_untouched_balance(Ledger::empty(), ops.drop_last(), who);
    }
}

} // verus!
