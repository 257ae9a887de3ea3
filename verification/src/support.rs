//! Shared vocabulary of the runtime: blocks, extrinsics, dispatch and errors.

use vstd::prelude::*;

verus! {

/// Why a dispatched call was rejected by the pallet that owns it.
#[derive(Clone, Copy, Debug, PartialEq, Eq, Structural)]
pub enum DispatchError {
    /// The caller's balance is smaller than the amount to move.
    InsufficientFunds,
    /// The receiver's balance would no longer fit its integer type.
    Overflow,
    /// The content already has an owner.
    AlreadyClaimed,
    /// The content has no owner.
    ClaimNotFound,
    /// The content is owned by somebody other than the caller.
    NotOwner,
}

/// Outcome of a dispatched call.
pub type DispatchResult = Result<(), DispatchError>;

/// Why a whole block was rejected.
#[derive(Clone, Copy, Debug, PartialEq, Eq, Structural)]
pub enum BlockError {
    /// The header's number is not the successor of the chain head.
    BlockNumberMismatch,
}

impl DispatchError {
    /// The text of the error, as a sequence of characters.
    pub open spec fn text(self) -> Seq<char> {
        match self {
            DispatchError::InsufficientFunds => "Not enough funds."@,
            DispatchError::Overflow => "Fund overflow."@,
            DispatchError::AlreadyClaimed => "this content is already claimed"@,
            DispatchError::ClaimNotFound => "claim does not exist"@,
            DispatchError::NotOwner => "caller is not the owner of the claim"@,
        }
    }

    /// Human-readable description of the error.
    pub fn message(&self) -> (r: &'static str)
        ensures
            r@ == self.text(),
    {
        match self {
            DispatchError::InsufficientFunds => "Not enough funds.",
            DispatchError::Overflow => "Fund overflow.",
            DispatchError::AlreadyClaimed => "this content is already claimed",
            DispatchError::ClaimNotFound => "claim does not exist",
            DispatchError::NotOwner => "caller is not the owner of the claim",
        }
    }
}

impl BlockError {
    /// The text of the error, as a sequence of characters.
    pub open spec fn text(self) -> Seq<char> {
        "block number does not match what is expected"@
    }

    /// Human-readable description of the error.
    pub fn message(&self) -> (r: &'static str)
        ensures
            r@ == self.text(),
    {
        "block number does not match what is expected"
    }
}

/// The header of a block.
#[derive(Debug)]
pub struct Header<BlockNumber> {
    /// The position the block claims in the chain.
    pub block_number: BlockNumber,
}

/// One caller-attributed request to run a call.
#[derive(Debug)]
pub struct Extrinsic<Caller, Call> {
    /// Who issued the request.
    pub caller: Caller,
    /// What is to be run.
    pub call: Call,
}

/// An ordered batch of extrinsics together with its header.
#[derive(Debug)]
pub struct Block<Header, Extrinsic> {
    /// The block's header.
    pub header: Header,
    /// The extrinsics, in the order in which they are applied.
    pub extrinsics: Vec<Extrinsic>,
}

/// The record of an extrinsic whose call was rejected.
#[derive(Clone, Copy, Debug, PartialEq, Eq, Structural)]
pub struct ExtrinsicFailure {
    /// Number of the block that held the extrinsic.
    pub block_number: u32,
    /// Position of the extrinsic in its block.
    pub extrinsic_index: usize,
    /// Why the call was rejected.
    pub error: DispatchError,
}

/// Resolves a call value to the method that implements it. What a call
/// returns and what it leaves behind are functions of the state and the
/// call alone.
pub trait Dispatch: View {
    /// Who may issue calls.
    type Caller;

    /// The closed set of calls the implementor accepts.
    type Call;

    /// The result of `call` when it is run on `state` on behalf of `caller`.
    spec fn result_of(state: Self::V, caller: Self::Caller, call: Self::Call) -> DispatchResult;

    /// The state that `call` leaves when it is run on `state` on behalf of `caller`.
    spec fn state_after(state: Self::V, caller: Self::Caller, call: Self::Call) -> Self::V;

    /// Runs `call` on behalf of `caller` and forwards the method's result.
    fn dispatch(&mut self, caller: Self::Caller, call: Self::Call) -> (r: DispatchResult)
        ensures
            r == Self::result_of(old(self)@, caller, call),
            final(self)@ == Self::state_after(old(self)@, caller, call),
    ;
}

} // verus!
