use vstd::prelude::*;
use crate::storage_map::StorageMap;

verus! {

/// The abstract state of the system ledger: the current block number and
/// each account's nonce (absent account = nonce 0).
pub struct SystemView {
    pub block_number: u32,
    pub nonces: Map<Seq<char>, u32>,
}

/// The nonce recorded for `who`, zero when no entry exists.
pub open spec fn nonce_of(nonces: Map<Seq<char>, u32>, who: Seq<char>) -> u32 {
    if nonces.contains_key(who) {
        nonces[who]
    } else {
        0
    }
}

/// The system ledger: pure bookkeeping of the block number and of one
/// monotonic nonce per account, consumed by block execution.
pub struct Pallet {
    block_number: u32,
    nonces: StorageMap<u32>,
}

impl View for Pallet {
    type V = SystemView;

    closed spec fn view(&self) -> SystemView {
        SystemView { block_number: self.block_number, nonces: self.nonces@ }
    }
}

impl Pallet {
    pub closed spec fn wf(&self) -> bool {
        self.nonces.wf()
    }

    /// A fresh ledger: block number zero, every nonce zero.
    pub fn new() -> (r: Self)
        ensures
            r.wf(),
            r@.block_number == 0,
            r@.nonces == Map::<Seq<char>, u32>::empty(),
    {
        Pallet { block_number: 0, nonces: StorageMap::new() }
    }

    /// The current block number.
    pub fn block_number(&self) -> (r: u32)
        ensures
            r == self@.block_number,
    {
        self.block_number
    }

    /// Advances the block number by exactly one.
    pub fn inc_block_number(&mut self)
        requires
            old(self).wf(),
            old(self)@.block_number < u32::MAX,
        ensures
            final(self).wf(),
            final(self)@.block_number == old(self)@.block_number + 1,
            final(self)@.nonces == old(self)@.nonces,
    {
        self.block_number = self.block_number + 1;
    }

    /// The nonce of `who`, zero for an account never seen.
    pub fn nonce(&self, who: &String) -> (r: u32)
        requires
            self.wf(),
        ensures
            r == nonce_of(self@.nonces, who@),
    {
        match self.nonces.get(who) {
            Some(n) => *n,
            None => 0,
        }
    }

    /// Advances the nonce of `who` by exactly one.
    pub fn inc_nonce(&mut self, who: &String)
        requires
            old(self).wf(),
            nonce_of(old(self)@.nonces, who@) < u32::MAX,
        ensures
            final(self).wf(),
            final(self)@.block_number == old(self)@.block_number,
            final(self)@.nonces == old(self)@.nonces.insert(
                who@,
                (nonce_of(old(self)@.nonces, who@) + 1) as u32,
            ),
    {
        let nonce = self.nonce(who);
        self.nonces.insert(who.clone(), nonce + 1);
    }
}

} // verus!
