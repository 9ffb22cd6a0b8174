//! Laws of the ledger, stated over the contracts of its operations.
use vstd::prelude::*;
use crate::balances::Currency;
use crate::dna::Gender;
use crate::ledger::{
    funds_paid, funds_unchanged, mint_outcome, transfer_outcome, Error, Pallet,
};

verus! {

/// A mint that succeeds takes an identifier that was absent before it and is
/// present after it; every record is keyed by its own identifier, so no two
/// kitties share one.
pub proof fn lemma_mint_uniqueness(
    old: Pallet,
    new: Pallet,
    owner: u64,
    dna: [u8; 16],
    gender: Gender,
    r: Result<[u8; 16], Error>,
)
    requires
        old.wf(),
        mint_outcome(old, new, owner, dna, gender, r),
        r is Ok,
    ensures
        !old.records().contains_key(dna),
        new.records().contains_key(dna),
        new.records()[dna].dna == dna,
        forall|d1: [u8; 16], d2: [u8; 16]|
            #![trigger new.records()[d1], new.records()[d2]]
            new.records().contains_key(d1) && new.records().contains_key(d2) && d1 != d2
                ==> new.records()[d1].dna != new.records()[d2].dna,
{
    assert forall|d: [u8; 16]| #[trigger] new.records().contains_key(d) implies new.records()[d].dna
        == d by {
        if d != dna {
            assert(old.records().contains_key(d));
        }
    }
}

/// In a well-formed ledger each kitty is listed in the index of its owner
/// and of no other account, and each index lists only recorded kitties.
pub proof fn lemma_index_consistency(s: Pallet)
    requires
        s.wf(),
    ensures
        forall|d: [u8; 16], a: u64|
            #![trigger s.owned_ids(a).contains(d), s.records()[d]]
            s.records().contains_key(d) ==> (s.owned_ids(a).contains(d) <==> a
                == s.records()[d].owner),
        forall|a: u64, d: [u8; 16]| #[trigger]
            s.owned_ids(a).contains(d) ==> s.records().contains_key(d),
{
    assert forall|d: [u8; 16], a: u64|
        #![trigger s.owned_ids(a).contains(d), s.records()[d]]
        s.records().contains_key(d) implies (s.owned_ids(a).contains(d) <==> a
            == s.records()[d].owner) by {
        assert(s.records().contains_key(d));
    }
}

/// No index of a well-formed ledger holds more than the bound.
pub proof fn lemma_capacity(s: Pallet)
    requires
        s.wf(),
    ensures
        forall|a: u64| #[trigger] s.owned_ids(a).len() <= s.cap(),
{
    assert forall|a: u64| #[trigger] s.owned_ids(a).len() <= s.cap() by {
        assert(s.owned_ids(a).no_duplicates());
    }
}

/// A mint of a fresh identifier to a full index fails with the capacity error
/// and leaves the ledger, that index included, as it was.
pub proof fn lemma_mint_refused_at_capacity(
    old: Pallet,
    new: Pallet,
    owner: u64,
    dna: [u8; 16],
    gender: Gender,
    r: Result<[u8; 16], Error>,
)
    requires
        mint_outcome(old, new, owner, dna, gender, r),
        !old.records().contains_key(dna),
        old.total() < u64::MAX,
        old.owned_ids(owner).len() >= old.cap(),
    ensures
        r == Err::<[u8; 16], Error>(Error::TooManyOwned),
        new.owned_ids(owner) == old.owned_ids(owner),
        new == old,
{
}

/// A move of a kitty to another account whose index is full fails with the
/// capacity error and changes neither the ledger nor the funds.
pub proof fn lemma_transfer_refused_at_capacity<C: Currency>(
    old: Pallet,
    new: Pallet,
    cold: C,
    cnew: C,
    id: [u8; 16],
    to: u64,
    limit: Option<u64>,
    r: Result<(), Error>,
)
    requires
        transfer_outcome(old, new, cold, cnew, id, to, limit, r),
        old.records().contains_key(id),
        old.records()[id].owner != to,
        old.owned_ids(to).len() >= old.cap(),
    ensures
        r == Err::<(), Error>(Error::TooManyOwned),
        new.owned_ids(to) == old.owned_ids(to),
        new == old,
        cnew == cold,
{
}

/// A purchase either changes neither the ledger nor any balance, or the buyer
/// pays exactly the listing price to the seller, no other balance changes,
/// and the kitty moves from the seller's index to the buyer's, unlisted.
pub proof fn lemma_sale_atomicity<C: Currency>(
    old: Pallet,
    new: Pallet,
    cold: C,
    cnew: C,
    id: [u8; 16],
    buyer: u64,
    limit: u64,
    r: Result<(), Error>,
)
    requires
        transfer_outcome(old, new, cold, cnew, id, buyer, Some(limit), r),
    ensures
        r is Err ==> new == old && funds_unchanged(cold, cnew),
        r is Ok ==> {
            let seller = old.records()[id].owner;
            let price = old.records()[id].price;
            &&& old.records().contains_key(id)
            &&& price is Some
            &&& price->0 <= limit
            &&& funds_paid(cold, cnew, buyer, seller, price->0)
            &&& new.records()[id].owner == buyer
            &&& new.records()[id].price is None
            &&& new.owned_ids(buyer).contains(id)
            &&& !new.owned_ids(seller).contains(id)
        },
{
    if r is Ok {
        let k = new.owned_ids(buyer).len() - 1;
        assert(new.owned_ids(buyer)[k] == id);
    }
}

} // verus!
