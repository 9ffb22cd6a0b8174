//! A registry of claims: byte strings of bounded length, each held by the
//! account that registered it, with the block number it was registered at.
use vstd::prelude::*;

verus! {

/// Why a claim operation was refused; a refused operation changes nothing.
#[derive(Clone, Copy, Debug, PartialEq, Eq, Structural)]
pub enum Error {
    /// The claim is registered already.
    ProofAlreadyExists,
    /// The claim is longer than the registry's limit.
    ClaimTooLong,
    /// The claim is not registered.
    ClaimNotExists,
    /// The caller does not hold the claim.
    NotClaimOwner,
}

/// What a claim operation that succeeded reports.
#[derive(Clone, Debug, PartialEq, Eq)]
pub enum Event {
    ClaimCreated(u64, Vec<u8>),
    ClaimRevoked(u64, Vec<u8>),
    ClaimTransferred(u64, u64, Vec<u8>),
}

/// The event as the model sees it: the claim as its bytes.
pub open spec fn event_view(e: Event) -> (int, u64, u64, Seq<u8>) {
    match e {
        Event::ClaimCreated(who, c) => (0, who, who, c@),
        Event::ClaimRevoked(who, c) => (1, who, who, c@),
        Event::ClaimTransferred(from, to, c) => (2, from, to, c@),
    }
}

struct Proof {
    claim: Vec<u8>,
    owner: u64,
    block: u64,
}

/// The registry's state.
pub struct Pallet {
    proofs: Vec<Proof>,
    model: Ghost<Map<Seq<u8>, (u64, u64)>>,
    claim_limit: u32,
    events: Vec<Event>,
}

/// A copy of `s`.
fn copy_bytes(s: &[u8]) -> (r: Vec<u8>)
    ensures
        r@ == s@,
{
    let mut out: Vec<u8> = Vec::new();
    let mut i: usize = 0;
    while i < s.len()
        invariant
            i <= s@.len(),
            out@ == s@.subrange(0, i as int),
        decreases s@.len() - i,
    {
        out.push(s[i]);
        proof {
            assert(out@ =~= s@.subrange(0, i + 1));
        }
        i = i + 1;
    }
    assert(out@ =~= s@);
    out
}

/// Whether `a` and `b` hold the same bytes.
fn same_bytes(a: &[u8], b: &[u8]) -> (r: bool)
    ensures
        r == (a@ == b@),
{
    if a.len() != b.len() {
        return false;
    }
    let mut i: usize = 0;
    while i < a.len()
        invariant
            i <= a@.len(),
            a@.len() == b@.len(),
            forall|j: int| 0 <= j < i ==> a@[j] == b@[j],
        decreases a@.len() - i,
    {
        if a[i] != b[i] {
            return false;
        }
        i = i + 1;
    }
    assert(a@ =~= b@);
    true
}

impl Pallet {
    /// The registered claims, each with its holder and block number.
    pub closed spec fn claims(&self) -> Map<Seq<u8>, (u64, u64)> {
        self.model@
    }

    /// The longest claim accepted.
    pub closed spec fn limit(&self) -> nat {
        self.claim_limit as nat
    }

    /// The events emitted so far, oldest first, as the model sees them.
    pub closed spec fn emitted(&self) -> Seq<(int, u64, u64, Seq<u8>)> {
        self.events@.map_values(|e: Event| event_view(e))
    }

    /// The entries hold exactly what the model does, one entry per claim.
    pub closed spec fn wf(&self) -> bool {
        &&& forall|i: int|
            0 <= i < self.proofs@.len() ==> #[trigger] self.model@.contains_key(self.proofs@[i].claim@)
                && self.model@[self.proofs@[i].claim@] == (self.proofs@[i].owner, self.proofs@[i].block)
        &&& forall|i: int, j: int|
            0 <= i < j < self.proofs@.len() ==> self.proofs@[i].claim@ != self.proofs@[j].claim@
        &&& forall|c: Seq<u8>|
            self.model@.contains_key(c) ==> exists|i: int|
                0 <= i < self.proofs@.len() && #[trigger] self.proofs@[i].claim@ == c
    }

    /// An empty registry that accepts claims of at most `claim_limit` bytes.
    pub fn new(claim_limit: u32) -> (r: Self)
        ensures
            r.wf(),
            r.claims() == Map::<Seq<u8>, (u64, u64)>::empty(),
            r.limit() == claim_limit,
            r.emitted() == Seq::<(int, u64, u64, Seq<u8>)>::empty(),
    {
        let r = Pallet {
            proofs: Vec::new(),
            model: Ghost(Map::empty()),
            claim_limit,
            events: Vec::new(),
        };
        assert(r.emitted() =~= Seq::<(int, u64, u64, Seq<u8>)>::empty());
        r
    }

    fn find(&self, claim: &[u8]) -> (r: Option<usize>)
        requires
            self.wf(),
        ensures
            match r {
                Some(i) => i < self.proofs@.len() && self.proofs@[i as int].claim@ == claim@
                    && self.claims().contains_key(claim@) && self.claims()[claim@] == (
                    self.proofs@[i as int].owner,
                    self.proofs@[i as int].block,
                ),
                None => !self.claims().contains_key(claim@),
            },
    {
        let mut i: usize = 0;
        while i < self.proofs.len()
            invariant
                self.wf(),
                i <= self.proofs@.len(),
                forall|j: int| 0 <= j < i ==> self.proofs@[j].claim@ != claim@,
            decreases self.proofs@.len() - i,
        {
            if same_bytes(self.proofs[i].claim.as_slice(), claim) {
                assert(self.model@.contains_key(self.proofs@[i as int].claim@));
                return Some(i);
            }
            i = i + 1;
        }
        None
    }

    /// Adds an entry for a claim that is not registered.
    fn insert(&mut self, claim: Vec<u8>, owner: u64, block: u64)
        requires
            old(self).wf(),
            !old(self).claims().contains_key(claim@),
        ensures
            final(self).wf(),
            final(self).claims() == old(self).claims().insert(claim@, (owner, block)),
            final(self).claim_limit == old(self).claim_limit,
            final(self).events == old(self).events,
    {
        let ghost c = claim@;
        let ghost n = self.proofs@.len() as int;
        assert forall|j: int| 0 <= j < n implies self.proofs@[j].claim@ != c by {
            assert(self.model@.contains_key(self.proofs@[j].claim@));
        }
        self.proofs.push(Proof { claim, owner, block });
        self.model = Ghost(self.model@.insert(c, (owner, block)));
        assert forall|j: int| 0 <= j < self.proofs@.len() implies #[trigger] self.model@.contains_key(
            self.proofs@[j].claim@,
        ) && self.model@[self.proofs@[j].claim@] == (self.proofs@[j].owner, self.proofs@[j].block) by {
            if j != n {
                assert(old(self).model@.contains_key(old(self).proofs@[j].claim@));
            }
        }
        assert forall|c2: Seq<u8>| self.model@.contains_key(c2) implies exists|j: int|
            0 <= j < self.proofs@.len() && #[trigger] self.proofs@[j].claim@ == c2 by {
            if c2 != c {
                let j = choose|j: int|
                    0 <= j < old(self).proofs@.len() && #[trigger] old(self).proofs@[j].claim@ == c2;
                assert(self.proofs@[j].claim@ == c2);
            } else {
                assert(self.proofs@[n].claim@ == c2);
            }
        }
    }

    /// Takes out the entry at `i`.
    fn remove_at(&mut self, i: usize) -> (r: Proof)
        requires
            old(self).wf(),
            i < old(self).proofs@.len(),
        ensures
            final(self).wf(),
            r == old(self).proofs@[i as int],
            final(self).claims() == old(self).claims().remove(r.claim@),
            final(self).claim_limit == old(self).claim_limit,
            final(self).events == old(self).events,
    {
        let ghost last = (self.proofs@.len() - 1) as int;
        let ghost c = self.proofs@[i as int].claim@;
        assert(self.model@.contains_key(c));
        let e = self.proofs.swap_remove(i);
        self.model = Ghost(self.model@.remove(c));
        assert forall|j: int| 0 <= j < self.proofs@.len() implies #[trigger] self.model@.contains_key(
            self.proofs@[j].claim@,
        ) && self.model@[self.proofs@[j].claim@] == (self.proofs@[j].owner, self.proofs@[j].block) by {
            if j == i {
                assert(old(self).model@.contains_key(old(self).proofs@[last].claim@));
            } else {
                assert(old(self).model@.contains_key(old(self).proofs@[j].claim@));
            }
        }
        assert forall|a: int, b: int| 0 <= a < b < self.proofs@.len() implies self.proofs@[a].claim@
            != self.proofs@[b].claim@ by {
            let oa = if a == i { last } else { a };
            let ob = if b == i { last } else { b };
            assert(old(self).proofs@[oa].claim@ != old(self).proofs@[ob].claim@);
        }
        assert forall|c2: Seq<u8>| self.model@.contains_key(c2) implies exists|j: int|
            0 <= j < self.proofs@.len() && #[trigger] self.proofs@[j].claim@ == c2 by {
            let j = choose|j: int|
                0 <= j < old(self).proofs@.len() && #[trigger] old(self).proofs@[j].claim@ == c2;
            if j == last {
                assert(self.proofs@[i as int].claim@ == c2);
            } else {
                assert(self.proofs@[j].claim@ == c2);
            }
        }
        e
    }

    fn emit(&mut self, e: Event)
        ensures
            final(self).emitted() == old(self).emitted().push(event_view(e)),
            final(self).proofs == old(self).proofs,
            final(self).model == old(self).model,
            final(self).claim_limit == old(self).claim_limit,
    {
        self.events.push(e);
        assert(self.emitted() =~= old(self).emitted().push(event_view(e)));
    }

    /// Registers `claim` for `sender` at block `block_number`.
    pub fn create_claim(&mut self, sender: u64, claim: Vec<u8>, block_number: u64) -> (r: Result<
        (),
        Error,
    >)
        requires
            old(self).wf(),
        ensures
            final(self).wf(),
            final(self).limit() == old(self).limit(),
            claim@.len() > old(self).limit() ==> r == Err::<(), Error>(Error::ClaimTooLong),
            claim@.len() <= old(self).limit() && old(self).claims().contains_key(claim@) ==> r
                == Err::<(), Error>(Error::ProofAlreadyExists),
            claim@.len() <= old(self).limit() && !old(self).claims().contains_key(claim@) ==> {
                &&& r == Ok::<(), Error>(())
                &&& final(self).claims() == old(self).claims().insert(claim@, (sender, block_number))
                &&& final(self).emitted() == old(self).emitted().push((0, sender, sender, claim@))
            },
            r is Err ==> *final(self) == *old(self),
    {
        if claim.len() > self.claim_limit as usize {
            return Err(Error::ClaimTooLong);
        }
        if self.find(claim.as_slice()).is_some() {
            return Err(Error::ProofAlreadyExists);
        }
        let copy = copy_bytes(claim.as_slice());
        self.insert(claim, sender, block_number);
        self.emit(Event::ClaimCreated(sender, copy));
        Ok(())
    }

    /// Withdraws `claim`, which `sender` must hold.
    pub fn revoke_claim(&mut self, sender: u64, claim: Vec<u8>) -> (r: Result<(), Error>)
        requires
            old(self).wf(),
        ensures
            final(self).wf(),
            final(self).limit() == old(self).limit(),
            claim@.len() > old(self).limit() ==> r == Err::<(), Error>(Error::ClaimTooLong),
            claim@.len() <= old(self).limit() && !old(self).claims().contains_key(claim@) ==> r
                == Err::<(), Error>(Error::ClaimNotExists),
            claim@.len() <= old(self).limit() && old(self).claims().contains_key(claim@) && old(
                self,
            ).claims()[claim@].0 != sender ==> r == Err::<(), Error>(Error::NotClaimOwner),
            claim@.len() <= old(self).limit() && old(self).claims().contains_key(claim@) && old(
                self,
            ).claims()[claim@].0 == sender ==> {
                &&& r == Ok::<(), Error>(())
                &&& final(self).claims() == old(self).claims().remove(claim@)
                &&& final(self).emitted() == old(self).emitted().push((1, sender, sender, claim@))
            },
            r is Err ==> *final(self) == *old(self),
    {
        if claim.len() > self.claim_limit as usize {
            return Err(Error::ClaimTooLong);
        }
        let i = match self.find(claim.as_slice()) {
            Some(i) => i,
            None => {
                return Err(Error::ClaimNotExists);
            },
        };
        if self.proofs[i].owner != sender {
            return Err(Error::NotClaimOwner);
        }
        self.remove_at(i);
        self.emit(Event::ClaimRevoked(sender, claim));
        Ok(())
    }

    /// Hands `claim`, which `sender` must hold, to `to`; its block number stays.
    pub fn transfer_claim(&mut self, sender: u64, to: u64, claim: Vec<u8>) -> (r: Result<(), Error>)
        requires
            old(self).wf(),
        ensures
            final(self).wf(),
            final(self).limit() == old(self).limit(),
            claim@.len() > old(self).limit() ==> r == Err::<(), Error>(Error::ClaimTooLong),
            claim@.len() <= old(self).limit() && !old(self).claims().contains_key(claim@) ==> r
                == Err::<(), Error>(Error::ClaimNotExists),
            claim@.len() <= old(self).limit() && old(self).claims().contains_key(claim@) && old(
                self,
            ).claims()[claim@].0 != sender ==> r == Err::<(), Error>(Error::NotClaimOwner),
            claim@.len() <= old(self).limit() && old(self).claims().contains_key(claim@) && old(
                self,
            ).claims()[claim@].0 == sender ==> {
                &&& r == Ok::<(), Error>(())
                &&& final(self).claims() == old(self).claims().insert(
                    claim@,
                    (to, old(self).claims()[claim@].1),
                )
                &&& final(self).emitted() == old(self).emitted().push((2, sender, to, claim@))
            },
            r is Err ==> *final(self) == *old(self),
    {
        if claim.len() > self.claim_limit as usize {
            return Err(Error::ClaimTooLong);
        }
        let i = match self.find(claim.as_slice()) {
            Some(i) => i,
            None => {
                return Err(Error::ClaimNotExists);
            },
        };
        if self.proofs[i].owner != sender {
            return Err(Error::NotClaimOwner);
        }
        let held = self.remove_at(i);
        self.insert(held.claim, to, held.block);
        proof {
            assert(self.claims() =~= old(self).claims().insert(claim@, (to, held.block)));
        }
        self.emit(Event::ClaimTransferred(sender, to, claim));
        Ok(())
    }

    /// The holder of `claim` and the block it was registered at, if it is registered.
    pub fn proofs(&self, claim: &[u8]) -> (r: Option<(u64, u64)>)
        requires
            self.wf(),
        ensures
            r == (if self.claims().contains_key(claim@) {
                Some(self.claims()[claim@])
            } else {
                None
            }),
    {
        match self.find(claim) {
            Some(i) => Some((self.proofs[i].owner, self.proofs[i].block)),
            None => None,
        }
    }

    /// The most recent event, if any.
    pub fn last_event(&self) -> (r: Option<&Event>)
        ensures
            r matches Some(e) ==> self.emitted().len() > 0 && event_view(*e) == self.emitted().last(),
            r is None ==> self.emitted().len() == 0,
    {
        if self.events.len() == 0 {
            None
        } else {
            Some(&self.events[self.events.len() - 1])
        }
    }
}

} // verus!
