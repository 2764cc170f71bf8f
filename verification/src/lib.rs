pub mod balances;
pub mod proof_of_existence;
pub mod storage_map;
pub mod support;
pub mod system;

use vstd::prelude::*;

use crate::support::{Dispatch, DispatchResult, RuntimeError};
use crate::system::nonce_of;

verus! {

pub type AccountId = String;

pub type Balance = u128;

pub type BlockNumber = u32;

pub type Nonce = u32;

pub type Content = String;

/// One externally submitted operation addressed to this runtime.
pub type Extrinsic = crate::support::Extrinsic<AccountId, RuntimeCall>;

/// The header a block of this runtime carries.
pub type Header = crate::support::Header<BlockNumber>;

/// A block of this runtime: a header and its ordered extrinsics.
pub type Block = crate::support::Block<Header, Extrinsic>;

/// The closed union of every operation any pallet of this runtime accepts.
pub enum RuntimeCall {
    Balances(balances::Call),
    ProofOfExistence(proof_of_existence::Call),
}

impl Clone for RuntimeCall {
    fn clone(&self) -> (r: Self)
        ensures
            r == *self,
    {
        match self {
            RuntimeCall::Balances(call) => RuntimeCall::Balances(call.clone()),
            RuntimeCall::ProofOfExistence(call) => RuntimeCall::ProofOfExistence(call.clone()),
        }
    }
}

/// The abstract state of the whole runtime: each pallet's state side by
/// side.
#[verifier::ext_equal]
pub struct RuntimeView {
    pub block_number: u32,
    pub nonces: Map<Seq<char>, u32>,
    pub balances: Map<Seq<char>, u128>,
    pub claims: Map<Seq<char>, Seq<char>>,
}

/// What dispatching one runtime call does: the call is routed to the
/// owning pallet, whose transition runs on that pallet's slice of the
/// state; every other slice is untouched and the pallet's error, if any,
/// propagates unchanged.
pub open spec fn call_transition(s: RuntimeView, caller: Seq<char>, call: RuntimeCall) -> (
    RuntimeView,
    DispatchResult,
) {
    match call {
        RuntimeCall::Balances(call) => {
            let step = balances::call_transition(s.balances, caller, call);
            (RuntimeView { balances: step.0, ..s }, step.1)
        },
        RuntimeCall::ProofOfExistence(call) => {
            let step = proof_of_existence::call_transition(s.claims, caller, call);
            (RuntimeView { claims: step.0, ..s }, step.1)
        },
    }
}

/// What processing one extrinsic does: the caller's nonce rises by one
/// before dispatch, and the dispatch outcome is dropped, so a failed call
/// changes no further state and aborts nothing.
pub open spec fn extrinsic_step(s: RuntimeView, ext: Extrinsic) -> RuntimeView {
    let bumped = RuntimeView {
        nonces: s.nonces.insert(ext.caller@, (nonce_of(s.nonces, ext.caller@) + 1) as u32),
        ..s
    };
    call_transition(bumped, ext.caller@, ext.call).0
}

/// Folds the extrinsics through the state in index order.
pub open spec fn apply_extrinsics(s: RuntimeView, exts: Seq<Extrinsic>) -> RuntimeView
    decreases exts.len(),
{
    if exts.len() == 0 {
        s
    } else {
        extrinsic_step(apply_extrinsics(s, exts.drop_last()), exts.last())
    }
}

/// What executing a block does: the block number always advances by one;
/// a header that does not carry the advanced number rejects the block with
/// no extrinsic processed, and otherwise every extrinsic is folded through
/// the state and the block succeeds.
pub open spec fn execute_block_transition(s: RuntimeView, block: Block) -> (
    RuntimeView,
    DispatchResult,
) {
    let advanced = RuntimeView { block_number: (s.block_number + 1) as u32, ..s };
    if block.header.block_number != advanced.block_number {
        (advanced, Err(RuntimeError::BlockNumberMismatch))
    } else {
        (apply_extrinsics(advanced, block.extrinsics@), Ok(()))
    }
}

/// How many of the extrinsics are authored by `who`.
pub open spec fn count_authored(exts: Seq<Extrinsic>, who: Seq<char>) -> nat
    decreases exts.len(),
{
    if exts.len() == 0 {
        0
    } else {
        count_authored(exts.drop_last(), who) + (if exts.last().caller@ == who {
            1nat
        } else {
            0nat
        })
    }
}

/// No account's nonce can be pushed past the nonce type's range by these
/// extrinsics.
pub open spec fn nonce_headroom(s: RuntimeView, exts: Seq<Extrinsic>) -> bool {
    forall|who: Seq<char>|
        nonce_of(s.nonces, who) + #[trigger] count_authored(exts, who) <= u32::MAX
}

/// Extrinsics never move the block number: only block execution itself
/// advances it.
pub proof fn lemma_extrinsics_keep_block_number(s: RuntimeView, exts: Seq<Extrinsic>)
    ensures
        apply_extrinsics(s, exts).block_number == s.block_number,
    decreases exts.len(),
{
    if exts.len() > 0 {
        lemma_extrinsics_keep_block_number(s, exts.drop_last());
        let folded = apply_extrinsics(s, exts.drop_last());
        let last = exts.last();
        let bumped = RuntimeView {
            nonces: folded.nonces.insert(
                last.caller@,
                (nonce_of(folded.nonces, last.caller@) + 1) as u32,
            ),
            ..folded
        };
        assert(call_transition(bumped, last.caller@, last.call).0.block_number
            == bumped.block_number);
    }
}

/// Block numbers strictly progress: every execution, accepted or
/// rejected, advances the block number by exactly one.
pub proof fn lemma_block_number_strictly_steps(s: RuntimeView, block: Block)
    requires
        s.block_number < u32::MAX,
    ensures
        execute_block_transition(s, block).0.block_number == s.block_number + 1,
{
    let advanced = RuntimeView { block_number: (s.block_number + 1) as u32, ..s };
    lemma_extrinsics_keep_block_number(advanced, block.extrinsics@);
}

/// Nonces progress by exactly one per authored extrinsic: folding the
/// extrinsics through the state raises each account's nonce by exactly the
/// number of extrinsics that account authored, whatever each dispatch
/// returned.
pub proof fn lemma_nonce_progression(s: RuntimeView, exts: Seq<Extrinsic>, who: Seq<char>)
    requires
        nonce_of(s.nonces, who) + count_authored(exts, who) <= u32::MAX,
    ensures
        nonce_of(apply_extrinsics(s, exts).nonces, who) == nonce_of(s.nonces, who)
            + count_authored(exts, who),
    decreases exts.len(),
{
    if exts.len() > 0 {
        let prefix = exts.drop_last();
        let last = exts.last();
        lemma_nonce_progression(s, prefix, who);
        let folded = apply_extrinsics(s, prefix);
        let bumped = RuntimeView {
            nonces: folded.nonces.insert(
                last.caller@,
                (nonce_of(folded.nonces, last.caller@) + 1) as u32,
            ),
            ..folded
        };
        assert(call_transition(bumped, last.caller@, last.call).0.nonces == bumped.nonces);
    }
}

/// One more extrinsic taken from the front adds one to the count exactly
/// when `who` authored it.
proof fn lemma_count_take_step(exts: Seq<Extrinsic>, who: Seq<char>, i: int)
    requires
        0 <= i < exts.len(),
    ensures
        count_authored(exts.take(i + 1), who) == count_authored(exts.take(i), who) + (
        if exts[i].caller@ == who {
            1int
        } else {
            0int
        }),
{
    assert(exts.take(i + 1).drop_last() =~= exts.take(i));
    assert(exts.take(i + 1).last() == exts[i]);
}

/// A prefix never counts more authored extrinsics than the whole.
proof fn lemma_count_take_le(exts: Seq<Extrinsic>, who: Seq<char>, i: int)
    requires
        0 <= i <= exts.len(),
    ensures
        count_authored(exts.take(i), who) <= count_authored(exts, who),
    decreases exts.len() - i,
{
    if i == exts.len() {
        assert(exts.take(i) =~= exts);
    } else {
        lemma_count_take_step(exts, who, i);
        lemma_count_take_le(exts, who, i + 1);
    }
}

/// A block whose header does not carry the successor of the current block
/// number is rejected with `BlockNumberMismatch`, and no pallet state
/// changes: the block number advance made for the check is the only
/// effect, and no nonce is touched.
pub proof fn lemma_rejected_block_preserves_state(s: RuntimeView, block: Block)
    requires
        s.block_number < u32::MAX,
        block.header.block_number != s.block_number + 1,
    ensures
        execute_block_transition(s, block).1 == Err::<(), RuntimeError>(
            RuntimeError::BlockNumberMismatch,
        ),
        execute_block_transition(s, block).0.block_number == s.block_number + 1,
        execute_block_transition(s, block).0.nonces == s.nonces,
        execute_block_transition(s, block).0.balances == s.balances,
        execute_block_transition(s, block).0.claims == s.claims,
{
}

/// The composition root: one instance of each pallet, a router from the
/// call union to the owning pallet, and block execution.
pub struct Runtime {
    pub system: system::Pallet,
    pub balances: balances::Pallet,
    pub proof_of_existence: proof_of_existence::Pallet,
}

impl View for Runtime {
    type V = RuntimeView;

    open spec fn view(&self) -> RuntimeView {
        RuntimeView {
            block_number: self.system@.block_number,
            nonces: self.system@.nonces,
            balances: self.balances@,
            claims: self.proof_of_existence@,
        }
    }
}

impl Runtime {
    pub open spec fn wf(&self) -> bool {
        self.system.wf() && self.balances.wf() && self.proof_of_existence.wf()
    }

    /// A fresh runtime: block number zero and every pallet empty.
    pub fn new() -> (r: Self)
        ensures
            r.wf(),
            r@.block_number == 0,
            r@.nonces == Map::<Seq<char>, u32>::empty(),
            r@.balances == Map::<Seq<char>, u128>::empty(),
            r@.claims == Map::<Seq<char>, Seq<char>>::empty(),
    {
        Runtime {
            system: system::Pallet::new(),
            balances: balances::Pallet::new(),
            proof_of_existence: proof_of_existence::Pallet::new(),
        }
    }

    /// Executes one block: the block number advances, a mismatched header
    /// rejects the whole block before any extrinsic runs, and otherwise
    /// each extrinsic raises its caller's nonce and is dispatched in
    /// order, with a failed dispatch aborting nothing.
    pub fn execute_block(&mut self, block: Block) -> (r: DispatchResult)
        requires
            old(self).wf(),
            old(self)@.block_number < u32::MAX,
            block.header.block_number == old(self)@.block_number + 1 ==> nonce_headroom(
                old(self)@,
                block.extrinsics@,
            ),
        ensures
            final(self).wf(),
            final(self)@ == execute_block_transition(old(self)@, block).0,
            r == execute_block_transition(old(self)@, block).1,
    {
        self.system.inc_block_number();
        if block.header.block_number != self.system.block_number() {
            proof {
                assert(self@ =~= execute_block_transition(old(self)@, block).0);
            }
            return Err(RuntimeError::BlockNumberMismatch);
        }
        let ghost start = self@;
        proof {
            assert(start =~= (RuntimeView {
                block_number: (old(self)@.block_number + 1) as u32,
                ..old(self)@
            }));
            assert(execute_block_transition(old(self)@, block).0 == apply_extrinsics(
                start,
                block.extrinsics@,
            ));
            assert(forall|who: Seq<char>| nonce_of(start.nonces, who) == nonce_of(
                old(self)@.nonces,
                who,
            ));
        }
        let n = block.extrinsics.len();
        let mut i: usize = 0;
        while i < n
            invariant
                n == block.extrinsics@.len(),
                i <= n,
                self.wf(),
                self@ == apply_extrinsics(start, block.extrinsics@.take(i as int)),
                nonce_headroom(start, block.extrinsics@),
            decreases n - i,
        {
            let ghost exts = block.extrinsics@;
            let ghost who = exts[i as int].caller@;
            let ghost before = self@;
            proof {
                lemma_count_take_step(exts, who, i as int);
                lemma_count_take_le(exts, who, i as int + 1);
                assert(nonce_of(start.nonces, who) + count_authored(exts, who) <= u32::MAX);
                lemma_nonce_progression(start, exts.take(i as int), who);
            }
            let ext = &block.extrinsics[i];
            let caller = ext.caller.clone();
            let call = ext.call.clone();
            self.system.inc_nonce(&caller);
            proof {
                assert(self@ =~= (RuntimeView {
                    nonces: before.nonces.insert(who, (nonce_of(before.nonces, who) + 1) as u32),
                    ..before
                }));
            }
            let _res = self.dispatch(caller, call);
            i = i + 1;
            proof {
                assert(exts.take(i as int).drop_last() =~= exts.take(i as int - 1));
                assert(exts.take(i as int).last() == exts[i as int - 1]);
                assert(self@ == extrinsic_step(before, exts[i as int - 1]));
                assert(self@ == apply_extrinsics(start, exts.take(i as int)));
            }
        }
        proof {
            assert(block.extrinsics@.take(n as int) =~= block.extrinsics@);
        }
        Ok(())
    }
}

impl Dispatch for Runtime {
    type Caller = AccountId;

    type Call = RuntimeCall;

    open spec fn dispatch_wf(&self) -> bool {
        self.wf()
    }

    fn dispatch(&mut self, caller: AccountId, runtime_call: RuntimeCall) -> (r: DispatchResult)
        ensures
            final(self)@ == call_transition(old(self)@, caller@, runtime_call).0,
            r == call_transition(old(self)@, caller@, runtime_call).1,
    {
        let result = match runtime_call {
            RuntimeCall::Balances(call) => self.balances.dispatch(caller, call),
            RuntimeCall::ProofOfExistence(call) => self.proof_of_existence.dispatch(caller, call),
        };
        proof {
            assert(self@ =~= call_transition(old(self)@, caller@, runtime_call).0);
        }
        result
    }
}

} // verus!
