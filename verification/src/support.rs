use vstd::prelude::*;

verus! {

/// Every way an operation of this runtime can fail.  `BlockNumberMismatch`
/// rejects a whole block; the rest are per-extrinsic business outcomes.
#[derive(Clone, Copy, PartialEq, Eq, Structural, Debug)]
pub enum RuntimeError {
    /// The block's header does not carry the successor of the current
    /// block number.
    BlockNumberMismatch,
    /// A transfer asked for more than the caller holds.
    InsufficientFunds,
    /// Crediting the recipient would exceed the balance type's range.
    Overflow,
    /// The fingerprint already has an owner.
    AlreadyClaimed,
    /// The fingerprint has no owner to revoke.
    NoSuchClaim,
    /// Only the current owner may revoke a claim.
    NotClaimOwner,
}

/// The outcome of dispatching one operation.
pub type DispatchResult = Result<(), RuntimeError>;

/// One externally submitted operation: who calls, and what they ask for.
pub struct Extrinsic<Caller, Call> {
    pub caller: Caller,
    pub call: Call,
}

/// The part of a block that is not its payload: the number the block
/// claims to represent.
pub struct Header<BlockNumber> {
    pub block_number: BlockNumber,
}

/// A header plus the ordered operations to run under it.
pub struct Block<H, E> {
    pub header: H,
    pub extrinsics: Vec<E>,
}

/// The uniform contract every pallet and the composed runtime implement:
/// route one call from `caller` to the state it targets, returning the
/// operation's own error unchanged.  `dispatch_wf` is the implementer's
/// well-formedness, which dispatch needs and preserves.
pub trait Dispatch: Sized {
    type Caller;
    type Call;

    spec fn dispatch_wf(&self) -> bool;

    fn dispatch(&mut self, caller: Self::Caller, call: Self::Call) -> (r: DispatchResult)
        requires
            old(self).dispatch_wf(),
        ensures
            final(self).dispatch_wf(),
    ;
}

} // verus!
