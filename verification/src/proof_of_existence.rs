use vstd::prelude::*;
use crate::storage_map::StorageMap;
use crate::support::{Dispatch, DispatchResult, RuntimeError};

verus! {

/// What `create_claim` does to the claim map: the error and an unchanged
/// map when the fingerprint is already owned, otherwise the map with the
/// caller recorded as owner.
pub open spec fn create_transition(
    claims: Map<Seq<char>, Seq<char>>,
    caller: Seq<char>,
    content: Seq<char>,
) -> (Map<Seq<char>, Seq<char>>, DispatchResult) {
    if claims.contains_key(content) {
        (claims, Err(RuntimeError::AlreadyClaimed))
    } else {
        (claims.insert(content, caller), Ok(()))
    }
}

/// What `revoke_claim` does to the claim map: unclaimed fingerprints and
/// foreign claims are refused unchanged; the owner's claim is removed.
pub open spec fn revoke_transition(
    claims: Map<Seq<char>, Seq<char>>,
    caller: Seq<char>,
    content: Seq<char>,
) -> (Map<Seq<char>, Seq<char>>, DispatchResult) {
    if !claims.contains_key(content) {
        (claims, Err(RuntimeError::NoSuchClaim))
    } else if claims[content] != caller {
        (claims, Err(RuntimeError::NotClaimOwner))
    } else {
        (claims.remove(content), Ok(()))
    }
}

/// The operations the claim registry accepts through dispatch.
pub enum Call {
    CreateClaim { content: String },
    RevokeClaim { content: String },
}

impl Clone for Call {
    fn clone(&self) -> (r: Self)
        ensures
            r == *self,
    {
        match self {
            Call::CreateClaim { content } => Call::CreateClaim { content: content.clone() },
            Call::RevokeClaim { content } => Call::RevokeClaim { content: content.clone() },
        }
    }
}

/// What dispatching one claim-registry call does to the claim map.
pub open spec fn call_transition(
    claims: Map<Seq<char>, Seq<char>>,
    caller: Seq<char>,
    call: Call,
) -> (Map<Seq<char>, Seq<char>>, DispatchResult) {
    match call {
        Call::CreateClaim { content } => create_transition(claims, caller, content@),
        Call::RevokeClaim { content } => revoke_transition(claims, caller, content@),
    }
}

/// The claim registry: each content fingerprint mapped to the account that
/// owns it, with ownership-gated create and revoke.
pub struct Pallet {
    claims: StorageMap<String>,
}

impl View for Pallet {
    type V = Map<Seq<char>, Seq<char>>;

    closed spec fn view(&self) -> Map<Seq<char>, Seq<char>> {
        Map::new(|k: Seq<char>| self.claims@.contains_key(k), |k: Seq<char>| self.claims@[k]@)
    }
}

impl Pallet {
    pub closed spec fn wf(&self) -> bool {
        self.claims.wf()
    }

    /// An empty registry: every fingerprint is unclaimed.
    pub fn new() -> (r: Self)
        ensures
            r.wf(),
            r@ == Map::<Seq<char>, Seq<char>>::empty(),
    {
        let r = Pallet { claims: StorageMap::new() };
        proof {
            assert(r@ =~= Map::<Seq<char>, Seq<char>>::empty());
        }
        r
    }

    /// The current owner of `content`, or none when it is unclaimed.
    pub fn get_claim(&self, content: &String) -> (r: Option<&String>)
        requires
            self.wf(),
        ensures
            match r {
                Some(owner) => self@.contains_key(content@) && owner@ == self@[content@],
                None => !self@.contains_key(content@),
            },
    {
        self.claims.get(content)
    }

    /// Records `caller` as the owner of `content`, unless someone already
    /// owns it.
    pub fn create_claim(&mut self, caller: &String, content: &String) -> (r: DispatchResult)
        requires
            old(self).wf(),
        ensures
            final(self).wf(),
            final(self)@ == create_transition(old(self)@, caller@, content@).0,
            r == create_transition(old(self)@, caller@, content@).1,
    {
        match self.claims.get(content) {
            Some(_) => Err(RuntimeError::AlreadyClaimed),
            None => {
                self.claims.insert(content.clone(), caller.clone());
                proof {
                    assert(self@ =~= old(self)@.insert(content@, caller@));
                }
                Ok(())
            },
        }
    }

    /// Removes the claim on `content`, but only for its current owner.
    pub fn revoke_claim(&mut self, caller: &String, content: &String) -> (r: DispatchResult)
        requires
            old(self).wf(),
        ensures
            final(self).wf(),
            final(self)@ == revoke_transition(old(self)@, caller@, content@).0,
            r == revoke_transition(old(self)@, caller@, content@).1,
    {
        match self.claims.get(content) {
            None => Err(RuntimeError::NoSuchClaim),
            Some(owner) => {
                if *owner == *caller {
                    self.claims.remove(content);
                    proof {
                        assert(self@ =~= old(self)@.remove(content@));
                    }
                    Ok(())
                } else {
                    Err(RuntimeError::NotClaimOwner)
                }
            },
        }
    }
}

impl Dispatch for Pallet {
    type Caller = String;

    type Call = Call;

    open spec fn dispatch_wf(&self) -> bool {
        self.wf()
    }

    fn dispatch(&mut self, caller: String, call: Call) -> (r: DispatchResult)
        ensures
            final(self)@ == call_transition(old(self)@, caller@, call).0,
            r == call_transition(old(self)@, caller@, call).1,
    {
        match call {
            Call::CreateClaim { content } => self.create_claim(&caller, &content),
            Call::RevokeClaim { content } => self.revoke_claim(&caller, &content),
        }
    }
}

/// Claims are exclusive: creating a claim on an unclaimed fingerprint
/// succeeds and records the creator as owner, and any second creation on
/// the same fingerprint fails with `AlreadyClaimed`, leaving ownership
/// unchanged.
pub proof fn lemma_claim_exclusive(
    claims: Map<Seq<char>, Seq<char>>,
    creator: Seq<char>,
    rival: Seq<char>,
    content: Seq<char>,
)
    requires
        !claims.contains_key(content),
    ensures
        create_transition(claims, creator, content).1 == Ok::<(), RuntimeError>(()),
        create_transition(claims, creator, content).0[content] == creator,
        create_transition(
            create_transition(claims, creator, content).0,
            rival,
            content,
        ).1 == Err::<(), RuntimeError>(RuntimeError::AlreadyClaimed),
        create_transition(
            create_transition(claims, creator, content).0,
            rival,
            content,
        ).0[content] == creator,
{
}

/// Revocation is owner-gated: a non-owner's revoke fails with
/// `NotClaimOwner` and changes nothing; the owner's revoke succeeds and
/// leaves the fingerprint unclaimed, so a second revoke fails with
/// `NoSuchClaim`.
pub proof fn lemma_revoke_owner_gated(
    claims: Map<Seq<char>, Seq<char>>,
    owner: Seq<char>,
    stranger: Seq<char>,
    content: Seq<char>,
)
    requires
        claims.contains_key(content),
        claims[content] == owner,
        stranger != owner,
    ensures
        revoke_transition(claims, stranger, content).1 == Err::<(), RuntimeError>(
            RuntimeError::NotClaimOwner,
        ),
        revoke_transition(claims, stranger, content).0 == claims,
        revoke_transition(claims, owner, content).1 == Ok::<(), RuntimeError>(()),
        !revoke_transition(claims, owner, content).0.contains_key(content),
        revoke_transition(
            revoke_transition(claims, owner, content).0,
            owner,
            content,
        ).1 == Err::<(), RuntimeError>(RuntimeError::NoSuchClaim),
{
}

} // verus!
