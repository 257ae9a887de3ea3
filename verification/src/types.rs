//! The concrete types every pallet of the runtime agrees on.

use vstd::prelude::*;

verus! {

/// Identifies an account. Accounts are told apart by the text of their name.
pub type AccountId = String;

/// An amount of the chain's token.
pub type Tokens = u128;

/// The position of a block in the chain.
pub type BlockNumber = u32;

/// The number of extrinsics an account has had attempted.
pub type Nonce = u32;

/// Content whose existence can be claimed.
pub type Content = String;

/// An extrinsic as the runtime executes it.
pub type Extrinsic = crate::support::Extrinsic<AccountId, crate::runtime::RuntimeCall>;

/// A block header as the runtime validates it.
pub type Header = crate::support::Header<BlockNumber>;

/// A block as the runtime executes it.
pub type Block = crate::support::Block<Header, Extrinsic>;

} // verus!
