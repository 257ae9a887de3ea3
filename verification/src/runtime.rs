//! The runtime: it owns the pallets, routes calls to them and executes blocks.

use crate::balances;
use crate::balances::Ledger;
use crate::proof_of_existance;
use crate::proof_of_existance::Registry;
use crate::support::{BlockError, Dispatch, DispatchResult, ExtrinsicFailure};
use crate::system;
use crate::system::{advance, bump_nonce, ChainHead};
use crate::types::{AccountId, Block, BlockNumber, Extrinsic, Header, Tokens};
use vstd::prelude::*;

verus! {

/// The whole state of the runtime as mathematical values.
pub struct State {
    /// The chain head.
    pub system: ChainHead,
    /// The account ledger.
    pub balances: Ledger,
    /// The claim registry.
    pub claims: Registry,
}

/// Every call the runtime can route, one variant per pallet.
#[derive(Debug)]
pub enum RuntimeCall {
    /// A call of the balances pallet.
    Balances(balances::Call),
    /// A call of the proof-of-existence pallet.
    ProofOfExistance(proof_of_existance::Call),
}

/// The result of routing `call` for `caller`: that of the pallet that owns the call.
pub open spec fn dispatch_result(
    state: State,
    caller: Seq<char>,
    call: RuntimeCall,
) -> DispatchResult {
    match call {
        RuntimeCall::Balances(call) => balances::dispatch_result(state.balances, caller, call),
        RuntimeCall::ProofOfExistance(call) => proof_of_existance::dispatch_result(
            state.claims,
            caller,
            call,
        ),
    }
}

/// The state after `call` was routed for `caller`: only the owning pallet's part can differ.
pub open spec fn dispatch_state(state: State, caller: Seq<char>, call: RuntimeCall) -> State {
    match call {
        RuntimeCall::Balances(call) => State {
            balances: balances::dispatch_ledger(state.balances, caller, call),
            ..state
        },
        RuntimeCall::ProofOfExistance(call) => State {
            claims: proof_of_existance::dispatch_registry(state.claims, caller, call),
            ..state
        },
    }
}

/// The state in which the call of `ext` runs: its caller's nonce is counted first.
pub open spec fn counted(state: State, ext: Extrinsic) -> State {
    State { system: bump_nonce(state.system, ext.caller@), ..state }
}

/// The result of the call of `ext` when it is applied to `state`.
pub open spec fn extrinsic_result(state: State, ext: Extrinsic) -> DispatchResult {
    dispatch_result(counted(state, ext), ext.caller@, ext.call)
}

/// The state after `ext` was applied to `state`, whether its call was accepted or not.
pub open spec fn apply_extrinsic(state: State, ext: Extrinsic) -> State {
    dispatch_state(counted(state, ext), ext.caller@, ext.call)
}

/// The state after the extrinsics `exts` were applied to `state`, first to last.
pub open spec fn apply_extrinsics(state: State, exts: Seq<Extrinsic>) -> State
    decreases exts.len(),
{
    if exts.len() == 0 {
        state
    } else {
        apply_extrinsic(apply_extrinsics(state, exts.drop_last()), exts.last())
    }
}

/// The records of the extrinsics of `exts` whose calls are rejected when `exts`
/// is applied to `state` as the content of block `number`, in the order of `exts`.
pub open spec fn extrinsic_failures(
    state: State,
    exts: Seq<Extrinsic>,
    number: BlockNumber,
) -> Seq<ExtrinsicFailure>
    decreases exts.len(),
{
    if exts.len() == 0 {
        Seq::empty()
    } else {
        let earlier = extrinsic_failures(state, exts.drop_last(), number);
        match extrinsic_result(apply_extrinsics(state, exts.drop_last()), exts.last()) {
            Ok(_) => earlier,
            Err(error) => earlier.push(
                ExtrinsicFailure {
                    block_number: number,
                    extrinsic_index: (exts.len() - 1) as usize,
                    error,
                },
            ),
        }
    }
}

/// Whether `header` numbers the block that follows the chain head of `state`.
pub open spec fn is_next(state: State, header: Header) -> bool {
    header.block_number == state.system.block_number + 1
}

/// The state once a block was entered: the block number is advanced, nothing else differs.
pub open spec fn entered(state: State) -> State {
    State { system: advance(state.system), ..state }
}

/// The state after `block` was executed on `state`. The block is entered in
/// any case; its extrinsics are applied only if its header numbers the next block.
pub open spec fn block_state(state: State, block: Block) -> State {
    if is_next(state, block.header) {
        apply_extrinsics(entered(state), block.extrinsics@)
    } else {
        entered(state)
    }
}

/// The runtime. It owns one instance of every pallet, and nobody else can
/// change them: state changes through blocks, through routed calls, and
/// through the one privileged seeding call.
#[derive(Debug)]
pub struct Runtime {
    system: system::Pallet,
    balances: balances::Pallet,
    proof_of_existance: proof_of_existance::Pallet,
}

impl View for Runtime {
    type V = State;

    closed spec fn view(&self) -> State {
        State {
            system: self.system@,
            balances: self.balances@,
            claims: self.proof_of_existance@,
        }
    }
}

impl Runtime {
    /// A runtime at block 0 without nonces, balances or claims.
    pub fn new() -> (r: Self)
        ensures
            r@.system.block_number == 0,
            r@.system.nonces == Map::<Seq<char>, u32>::empty(),
            r@.balances == Ledger::empty(),
            r@.claims == Registry::empty(),
    {
        Runtime {
            system: system::Pallet::new(),
            balances: balances::Pallet::new(),
            proof_of_existance: proof_of_existance::Pallet::new(),
        }
    }

    /// The chain head, to read.
    pub fn system(&self) -> (r: &system::Pallet)
        ensures
            r@ == self@.system,
    {
        &self.system
    }

    /// The account ledger, to read.
    pub fn balances(&self) -> (r: &balances::Pallet)
        ensures
            r@ == self@.balances,
    {
        &self.balances
    }

    /// The claim registry, to read.
    pub fn proof_of_existance(&self) -> (r: &proof_of_existance::Pallet)
        ensures
            r@ == self@.claims,
    {
        &self.proof_of_existance
    }

    /// Sets the balance of `who` to `value`, whatever it was. This is the
    /// privileged way to hand out tokens before the chain runs: no call that
    /// can be dispatched reaches it, and it counts no nonce.
    pub fn seed_balance(&mut self, who: &AccountId, value: Tokens)
        ensures
            final(self)@ == (State {
                balances: old(self)@.balances.insert(who@, value),
                ..old(self)@
            }),
    {
        self.balances.set_balance(who, value);
    }

    /// Executes `block`. The block number is advanced first. A block whose
    /// header does not number the next block is rejected, and none of its
    /// extrinsics is applied. Otherwise every extrinsic is applied in order:
    /// its caller's nonce is counted, then its call is routed. A rejected call
    /// is recorded and the next extrinsic is applied all the same.
    pub fn execute_block(&mut self, block: Block) -> (r: Result<
        Vec<ExtrinsicFailure>,
        BlockError,
    >)
        ensures
            final(self)@ == block_state(old(self)@, block),
            match r {
                Ok(failures) => is_next(old(self)@, block.header) && failures@
                    == extrinsic_failures(
                    entered(old(self)@),
                    block.extrinsics@,
                    block.header.block_number,
                ),
                Err(error) => !is_next(old(self)@, block.header) && error
                    == BlockError::BlockNumberMismatch,
            },
            r is Err <==> block.header.block_number != old(self)@.system.block_number + 1,
            r is Err ==> final(self)@.balances == old(self)@.balances && final(self)@.claims
                == old(self)@.claims && final(self)@.system.nonces == old(self)@.system.nonces,
            r is Ok ==> final(self)@.system.block_number == old(self)@.system.block_number + 1,
    {
        let previous = self.system.block_number();
        self.system.inc_block_number();
        if previous == u32::MAX || block.header.block_number != self.system.block_number() {
            return Err(BlockError::BlockNumberMismatch);
        }
        let number = block.header.block_number;
        let ghost start = self@;
        let ghost exts = block.extrinsics@;
        assert(exts.len() == block.extrinsics.len());
        let mut failures: Vec<ExtrinsicFailure> = Vec::new();
        let mut index: usize = 0;
        for ext in it: block.extrinsics
            invariant
                index == it.index(),
                it.seq() == exts,
                exts.len() <= usize::MAX,
                self@ == apply_extrinsics(start, exts.take(index as int)),
                failures@ == extrinsic_failures(start, exts.take(index as int), number),
        {
            proof {
                assert(exts.take(index + 1).drop_last() == exts.take(index as int));
                assert(exts.take(index + 1).last() == ext);
            }
            let Extrinsic { caller, call } = ext;
            self.system.inc_nonce(&caller);
            match self.dispatch(caller, call) {
                Ok(_) => {},
                Err(error) => {
                    failures.push(
                        ExtrinsicFailure { block_number: number, extrinsic_index: index, error },
                    );
                },
            }
            index += 1;
        }
        proof {
            assert(exts.take(index as int) == exts);
            lemma_block_sequencing(old(self)@, block);
        }
        Ok(failures)
    }
}

impl Dispatch for Runtime {
    type Caller = AccountId;

    type Call = RuntimeCall;

    open spec fn result_of(
        state: State,
        caller: AccountId,
        call: RuntimeCall,
    ) -> DispatchResult {
        dispatch_result(state, caller@, call)
    }

    open spec fn state_after(state: State, caller: AccountId, call: RuntimeCall) -> State {
        dispatch_state(state, caller@, call)
    }

    /// Routes `call` to the pallet that owns it and forwards that pallet's result.
    fn dispatch(&mut self, caller: AccountId, call: RuntimeCall) -> (r: DispatchResult)
        ensures
            r == dispatch_result(old(self)@, caller@, call),
            final(self)@ == dispatch_state(old(self)@, caller@, call),
    {
        match call {
            RuntimeCall::Balances(call) => self.balances.dispatch(caller, call),
            RuntimeCall::ProofOfExistance(call) => self.proof_of_existance.dispatch(caller, call),
        }
    }
}

/// The state after the blocks `blocks` were executed on `state`, first to last.
pub open spec fn chain_state(state: State, blocks: Seq<Block>) -> State
    decreases blocks.len(),
{
    if blocks.len() == 0 {
        state
    } else {
        block_state(chain_state(state, blocks.drop_last()), blocks.last())
    }
}

/// The number of extrinsics of `exts` whose caller is `who`.
pub open spec fn calls_by(exts: Seq<Extrinsic>, who: Seq<char>) -> nat
    decreases exts.len(),
{
    if exts.len() == 0 {
        0
    } else {
        calls_by(exts.drop_last(), who) + if exts.last().caller@ == who {
            1nat
        } else {
            0nat
        }
    }
}

/// The number of extrinsics with caller `who` in those blocks of `blocks`
/// that are accepted when `blocks` is executed on `state`.
pub open spec fn attempts_by(state: State, blocks: Seq<Block>, who: Seq<char>) -> nat
    decreases blocks.len(),
{
    if blocks.len() == 0 {
        0
    } else {
        attempts_by(state, blocks.drop_last(), who) + if is_next(
            chain_state(state, blocks.drop_last()),
            blocks.last().header,
        ) {
            calls_by(blocks.last().extrinsics@, who)
        } else {
            0nat
        }
    }
}

/// A count as a nonce holds it: the largest nonce stands for every larger count.
pub open spec fn capped(n: nat) -> nat {
    if n <= u32::MAX {
        n
    } else {
        u32::MAX as nat
    }
}

/// Routing a call never touches the chain head, and a rejected call changes nothing at all.
pub proof fn lemma_dispatch_frame(state: State, caller: Seq<char>, call: RuntimeCall)
    ensures
        dispatch_state(state, caller, call).system == state.system,
        dispatch_result(state, caller, call) is Err ==> dispatch_state(state, caller, call)
            == state,
{
}

/// Applying extrinsics one after the other is the same as applying them as one sequence.
pub proof fn lemma_apply_extrinsics_split(
    state: State,
    first: Seq<Extrinsic>,
    rest: Seq<Extrinsic>,
)
    ensures
        apply_extrinsics(state, first + rest) == apply_extrinsics(
            apply_extrinsics(state, first),
            rest,
        ),
    decreases rest.len(),
{
    if rest.len() == 0 {
        assert(first + rest == first);
    } else {
        assert((first + rest).drop_last() == first + rest.drop_last());
        assert((first + rest).last() == rest.last());
        lemma_apply_extrinsics_split(state, first, rest.drop_last());
    }
}

/// Extrinsics leave the block number alone, and the nonce of an account
/// grows by the number of extrinsics it is the caller of, whether their calls
/// are accepted or rejected.
pub proof fn lemma_nonce_counts_extrinsics(state: State, exts: Seq<Extrinsic>, who: Seq<char>)
    ensures
        apply_extrinsics(state, exts).system.block_number == state.system.block_number,
        system::nonce_of(apply_extrinsics(state, exts).system.nonces, who) == capped(
            system::nonce_of(state.system.nonces, who) + calls_by(exts, who),
        ),
    decreases exts.len(),
{
    if exts.len() > 0 {
        let before = apply_extrinsics(state, exts.drop_last());
        let ext = exts.last();
        lemma_nonce_counts_extrinsics(state, exts.drop_last(), who);
        lemma_dispatch_frame(counted(before, ext), ext.caller@, ext.call);
        system::lemma_bump_nonce(before.system, ext.caller@, who);
    }
}

/// Over any run of blocks, the nonce of an account grows by the number of
/// extrinsics it is the caller of in the accepted blocks, whether their calls
/// are accepted or rejected.
pub proof fn lemma_nonce_counts_attempts(state: State, blocks: Seq<Block>, who: Seq<char>)
    ensures
        system::nonce_of(chain_state(state, blocks).system.nonces, who) == capped(
            system::nonce_of(state.system.nonces, who) + attempts_by(state, blocks, who),
        ),
    decreases blocks.len(),
{
    if blocks.len() > 0 {
        let before = chain_state(state, blocks.drop_last());
        lemma_nonce_counts_attempts(state, blocks.drop_last(), who);
        if is_next(before, blocks.last().header) {
            lemma_nonce_counts_extrinsics(entered(before), blocks.last().extrinsics@, who);
        }
    }
}

/// A block is accepted exactly if its header numbers the successor of the
/// chain head. An accepted block moves the chain head forward by one; a
/// rejected one applies none of its extrinsics: balances, claims and nonces
/// stay as they were, and only the advanced block number remains.
pub proof fn lemma_block_sequencing(state: State, block: Block)
    ensures
        is_next(state, block.header) ==> block_state(state, block).system.block_number
            == state.system.block_number + 1,
        !is_next(state, block.header) ==> block_state(state, block) == entered(state),
        !is_next(state, block.header) ==> block_state(state, block).balances == state.balances
            && block_state(state, block).claims == state.claims && block_state(
            state,
            block,
        ).system.nonces == state.system.nonces,
{
    if is_next(state, block.header) {
        lemma_nonce_counts_extrinsics(entered(state), block.extrinsics@, Seq::empty());
    }
}

/// A rejected call does not stop the block and undoes nothing. When the
/// call of extrinsic `i` is rejected, the state after it is the state that
/// the extrinsics before it left, with one more attempt counted for its
/// caller; and the extrinsics after it are applied to that state.
pub proof fn lemma_extrinsic_isolation(state: State, exts: Seq<Extrinsic>, i: int)
    requires
        0 <= i < exts.len(),
        extrinsic_result(apply_extrinsics(state, exts.take(i)), exts[i]) is Err,
    ensures
        apply_extrinsics(state, exts.take(i + 1)) == counted(
            apply_extrinsics(state, exts.take(i)),
            exts[i],
        ),
        apply_extrinsics(state, exts) == apply_extrinsics(
            apply_extrinsics(state, exts.take(i + 1)),
            exts.skip(i + 1),
        ),
{
    let before = apply_extrinsics(state, exts.take(i));
    assert(exts.take(i + 1).drop_last() == exts.take(i));
    assert(exts.take(i + 1).last() == exts[i]);
    lemma_dispatch_frame(counted(before, exts[i]), exts[i].caller@, exts[i].call);
    assert(exts.take(i + 1) + exts.skip(i + 1) == exts);
    lemma_apply_extrinsics_split(state, exts.take(i + 1), exts.skip(i + 1));
}

} // verus!
