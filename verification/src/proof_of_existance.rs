//! The claim registry: accounts claim content, and each content has at most one owner.

use crate::storage::StorageMap;
use crate::support::{Dispatch, DispatchError, DispatchResult};
use crate::types::{AccountId, Content};
use vstd::prelude::*;

verus! {

/// The registry as a mathematical value: the owner's name by claimed content.
pub type Registry = Map<Seq<char>, Seq<char>>;

/// Whether `caller` may claim `claim`: only content without an owner can be claimed.
pub open spec fn create_result(
    registry: Registry,
    caller: Seq<char>,
    claim: Seq<char>,
) -> DispatchResult {
    if registry.contains_key(claim) {
        Err(DispatchError::AlreadyClaimed)
    } else {
        Ok(())
    }
}

/// The registry after `caller` asked to claim `claim`.
pub open spec fn create_registry(
    registry: Registry,
    caller: Seq<char>,
    claim: Seq<char>,
) -> Registry {
    if create_result(registry, caller, claim) is Ok {
        registry.insert(claim, caller)
    } else {
        registry
    }
}

/// Whether `caller` may revoke the claim on `claim`: the claim must exist and be the caller's.
pub open spec fn revoke_result(
    registry: Registry,
    caller: Seq<char>,
    claim: Seq<char>,
) -> DispatchResult {
    if !registry.contains_key(claim) {
        Err(DispatchError::ClaimNotFound)
    } else if registry[claim] != caller {
        Err(DispatchError::NotOwner)
    } else {
        Ok(())
    }
}

/// The registry after `caller` asked to revoke the claim on `claim`.
pub open spec fn revoke_registry(
    registry: Registry,
    caller: Seq<char>,
    claim: Seq<char>,
) -> Registry {
    if revoke_result(registry, caller, claim) is Ok {
        registry.remove(claim)
    } else {
        registry
    }
}

/// The calls the registry accepts from outside.
#[derive(Debug)]
pub enum Call {
    /// Claim the content for the caller.
    CreateClaim(Content),
    /// Give up the caller's claim on the content.
    RevokeClaim(Content),
}

/// The result of dispatching `call` for `caller` on `registry`.
pub open spec fn dispatch_result(
    registry: Registry,
    caller: Seq<char>,
    call: Call,
) -> DispatchResult {
    match call {
        Call::CreateClaim(claim) => create_result(registry, caller, claim@),
        Call::RevokeClaim(claim) => revoke_result(registry, caller, claim@),
    }
}

/// The registry after `call` was dispatched for `caller`.
pub open spec fn dispatch_registry(registry: Registry, caller: Seq<char>, call: Call) -> Registry {
    match call {
        Call::CreateClaim(claim) => create_registry(registry, caller, claim@),
        Call::RevokeClaim(claim) => revoke_registry(registry, caller, claim@),
    }
}

/// The proof-of-existence pallet. Accounts can make many claims, but each
/// content has one owner at most.
#[derive(Debug)]
pub struct Pallet {
    claims: StorageMap<AccountId>,
}

impl View for Pallet {
    type V = Registry;

    closed spec fn view(&self) -> Registry {
        self.claims@
    }
}

impl Pallet {
    /// A registry without claims.
    pub fn new() -> (r: Self)
        ensures
            r@ == Registry::empty(),
    {
        Pallet { claims: StorageMap::new() }
    }

    /// The owner of `claim`, if it is claimed.
    pub fn get_claim(&self, claim: &Content) -> (r: Option<&AccountId>)
        ensures
            match r {
                Some(owner) => self@.contains_key(claim@) && self@[claim@] == owner@,
                None => !self@.contains_key(claim@),
            },
    {
        self.claims.get(claim)
    }

    /// Claims `claim` for `caller`. Content that has an owner cannot be claimed again.
    pub fn create_claim(&mut self, caller: AccountId, claim: Content) -> (r: DispatchResult)
        ensures
            r == create_result(old(self)@, caller@, claim@),
            final(self)@ == create_registry(old(self)@, caller@, claim@),
            r is Err ==> final(self)@ == old(self)@,
    {
        if self.claims.contains_key(&claim) {
            return Err(DispatchError::AlreadyClaimed);
        }
        self.claims.insert(claim, caller);
        Ok(())
    }

    /// Revokes the claim on `claim`. Only the owner of an existing claim can revoke it.
    pub fn revoke_claim(&mut self, caller: AccountId, claim: Content) -> (r: DispatchResult)
        ensures
            r == revoke_result(old(self)@, caller@, claim@),
            final(self)@ == revoke_registry(old(self)@, caller@, claim@),
            r is Err ==> final(self)@ == old(self)@,
    {
        let owned = match self.get_claim(&claim) {
            Some(owner) => *owner == caller,
            None => {
                return Err(DispatchError::ClaimNotFound);
            },
        };
        if !owned {
            return Err(DispatchError::NotOwner);
        }
        self.claims.remove(&claim);
        Ok(())
    }
}

impl Dispatch for Pallet {
    type Caller = AccountId;

    type Call = Call;

    open spec fn result_of(state: Registry, caller: AccountId, call: Call) -> DispatchResult {
        dispatch_result(state, caller@, call)
    }

    open spec fn state_after(state: Registry, caller: AccountId, call: Call) -> Registry {
        dispatch_registry(state, caller@, call)
    }

    /// Forwards `call` to the method that implements it, with `caller` as its first argument.
    fn dispatch(&mut self, caller: AccountId, call: Call) -> (r: DispatchResult)
        ensures
            r == dispatch_result(old(self)@, caller@, call),
            final(self)@ == dispatch_registry(old(self)@, caller@, call),
    {
        match call {
            Call::CreateClaim(claim) => self.create_claim(caller, claim),
            Call::RevokeClaim(claim) => self.revoke_claim(caller, claim),
        }
    }
}

/// The registry after the operations `ops`, each a caller and its call, ran in order.
pub open spec fn registry_after(registry: Registry, ops: Seq<(Seq<char>, Call)>) -> Registry
    decreases ops.len(),
{
    if ops.len() == 0 {
        registry
    } else {
        dispatch_registry(registry_after(registry, ops.drop_last()), ops.last().0, ops.last().1)
    }
}

/// Whether operation `i` of `ops` is accepted when `ops` runs in order from `registry`.
pub open spec fn succeeds_at(registry: Registry, ops: Seq<(Seq<char>, Call)>, i: int) -> bool {
    dispatch_result(registry_after(registry, ops.take(i)), ops[i].0, ops[i].1) is Ok
}

/// Whether `call` asks to claim `content`.
pub open spec fn creates(call: Call, content: Seq<char>) -> bool {
    call matches Call::CreateClaim(claim) && claim@ == content
}

/// Whether `call` asks to revoke the claim on `content`.
pub open spec fn revokes(call: Call, content: Seq<char>) -> bool {
    call matches Call::RevokeClaim(claim) && claim@ == content
}

/// Content that is claimed before operation `from` and unclaimed before
/// operation `to` was released by an accepted revocation in between.
proof fn lemma_release_needs_revoke(
    registry: Registry,
    ops: Seq<(Seq<char>, Call)>,
    content: Seq<char>,
    from: int,
    to: int,
)
    requires
        0 <= from <= to <= ops.len(),
        registry_after(registry, ops.take(from)).contains_key(content),
        !registry_after(registry, ops.take(to)).contains_key(content),
    ensures
        exists|k: int|
            from <= k < to && revokes(#[trigger] ops[k].1, content) && succeeds_at(
                registry,
                ops,
                k,
            ),
    decreases to - from,
{
    if from < to {
        let last = to - 1;
        assert(ops.take(to).drop_last() == ops.take(last));
        assert(ops.take(to).last() == ops[last]);
        if registry_after(registry, ops.take(last)).contains_key(content) {
            assert(revokes(ops[last].1, content) && succeeds_at(registry, ops, last));
        } else {
            lemma_release_needs_revoke(registry, ops, content, from, last);
        }
    }
}

/// Claims are exclusive: when two requests to claim the same content are
/// both accepted in a run of registry operations, an accepted revocation of
/// that content lies between them.
pub proof fn lemma_claim_exclusive(
    registry: Registry,
    ops: Seq<(Seq<char>, Call)>,
    content: Seq<char>,
    i: int,
    j: int,
)
    requires
        0 <= i < j < ops.len(),
        creates(ops[i].1, content),
        creates(ops[j].1, content),
        succeeds_at(registry, ops, i),
        succeeds_at(registry, ops, j),
    ensures
        exists|k: int|
            i < k < j && revokes(#[trigger] ops[k].1, content) && succeeds_at(registry, ops, k),
{
    assert(ops.take(i + 1).drop_last() == ops.take(i));
    assert(ops.take(i + 1).last() == ops[i]);
    lemma_release_needs_revoke(registry, ops, content, i + 1, j);
}

} // verus!
