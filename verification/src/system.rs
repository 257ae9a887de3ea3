//! The chain head: the number of the latest block and a nonce per account.

use crate::numeric::{one_u32, zero_u32};
use crate::storage::StorageMap;
use crate::types::{AccountId, BlockNumber, Nonce};
use vstd::prelude::*;

verus! {

/// The chain head as mathematical values.
pub struct ChainHead {
    /// Number of the latest block that was entered.
    pub block_number: BlockNumber,
    /// Nonces by account name; an account without an entry has nonce 0.
    pub nonces: Map<Seq<char>, Nonce>,
}

/// The nonce of `who`: the stored value, or 0 where nothing is stored.
pub open spec fn nonce_of(nonces: Map<Seq<char>, Nonce>, who: Seq<char>) -> nat {
    if nonces.contains_key(who) {
        nonces[who] as nat
    } else {
        0
    }
}

/// The next value of a counter: one more, except that the largest value stays.
pub open spec fn successor(n: u32) -> u32 {
    if n < u32::MAX {
        (n + 1) as u32
    } else {
        n
    }
}

/// The chain head after the block number was advanced.
pub open spec fn advance(head: ChainHead) -> ChainHead {
    ChainHead { block_number: successor(head.block_number), nonces: head.nonces }
}

/// The chain head after one more extrinsic of `who` was attempted.
pub open spec fn bump_nonce(head: ChainHead, who: Seq<char>) -> ChainHead {
    ChainHead {
        block_number: head.block_number,
        nonces: head.nonces.insert(who, successor(nonce_of(head.nonces, who) as u32)),
    }
}

/// The system pallet. It holds the low-level state of the chain.
#[derive(Debug)]
pub struct Pallet {
    block_number: BlockNumber,
    nonce: StorageMap<Nonce>,
}

impl View for Pallet {
    type V = ChainHead;

    closed spec fn view(&self) -> ChainHead {
        ChainHead { block_number: self.block_number, nonces: self.nonce@ }
    }
}

impl Pallet {
    /// A chain head at block 0 where no account has a nonce.
    pub fn new() -> (r: Self)
        ensures
            r@.block_number == 0,
            r@.nonces == Map::<Seq<char>, Nonce>::empty(),
    {
        Pallet { block_number: zero_u32(), nonce: StorageMap::new() }
    }

    /// The number of the latest block.
    pub fn block_number(&self) -> (r: BlockNumber)
        ensures
            r == self@.block_number,
    {
        self.block_number
    }

    /// The nonce stored for `who`, or `None` while none of its extrinsics was attempted.
    pub fn nonce(&self, who: &AccountId) -> (r: Option<&Nonce>)
        ensures
            match r {
                Some(nonce) => self@.nonces.contains_key(who@) && self@.nonces[who@] == *nonce,
                None => !self@.nonces.contains_key(who@),
            },
    {
        self.nonce.get(who)
    }

    /// Advances the block number by one. At the largest number it stays.
    pub fn inc_block_number(&mut self)
        ensures
            final(self)@ == advance(old(self)@),
    {
        if self.block_number < u32::MAX {
            self.block_number = self.block_number + one_u32();
        }
    }

    /// Counts one more attempted extrinsic for `who`. At the largest nonce it stays.
    pub fn inc_nonce(&mut self, who: &AccountId)
        ensures
            final(self)@ == bump_nonce(old(self)@, who@),
    {
        let current = match self.nonce.get(who) {
            Some(n) => *n,
            None => zero_u32(),
        };
        let next = if current < u32::MAX {
            current + one_u32()
        } else {
            current
        };
        self.nonce.insert(who.clone(), next);
    }
}

/// Bumping a nonce changes the nonce of that account alone, by one, and not
/// beyond the largest value.
pub proof fn lemma_bump_nonce(head: ChainHead, who: Seq<char>, other: Seq<char>)
    ensures
        nonce_of(bump_nonce(head, who).nonces, who) == if nonce_of(head.nonces, who) < u32::MAX {
            nonce_of(head.nonces, who) + 1
        } else {
            nonce_of(head.nonces, who)
        },
        other != who ==> nonce_of(bump_nonce(head, who).nonces, other) == nonce_of(
            head.nonces,
            other,
        ),
        bump_nonce(head, who).block_number == head.block_number,
{
}

} // verus!
