//! The ownership ledger: kitty records, per-owner bounded indices, a count of
//! kitties minted, listing prices, and the events that operations emit.
use vstd::prelude::*;
use crate::balances::{BalanceError, Currency};
use crate::dna::{breed_dna, derived_dna, gen_dna, gender_of, generated_dna, Gender};
use crate::table::{Table, TableKey};

verus! {

/// A kitty: its identifier, listing price (`None`: not for sale), trait and owner.
#[derive(Clone, Copy, Debug, PartialEq, Eq)]
pub struct Kitty {
    pub dna: [u8; 16],
    pub price: Option<u64>,
    pub gender: Gender,
    pub owner: u64,
}

/// Why an operation was refused; a refused operation changes nothing.
#[derive(Clone, Copy, Debug, PartialEq, Eq)]
pub enum Error {
    /// The account's index is full.
    TooManyOwned,
    /// A kitty cannot go to its own owner.
    TransferToSelf,
    /// The identifier is taken.
    DuplicateKitty,
    /// No kitty has the identifier.
    NoKitty,
    /// The caller does not own the kitty.
    NotOwner,
    /// The kitty has no listing price.
    NotForSale,
    /// The bid is below the listing price.
    BidPriceTooLow,
    /// The parents have the same trait.
    CantBreed,
    /// The count of kitties would overflow.
    Overflow,
    /// The fund ledger refused the payment.
    Balance(BalanceError),
}

/// What an operation that succeeded reports.
#[derive(Clone, Copy, Debug, PartialEq, Eq)]
pub enum Event {
    Created { kitty: [u8; 16], owner: u64 },
    PriceSet { kitty: [u8; 16], price: Option<u64> },
    Transferred { from: u64, to: u64, kitty: [u8; 16] },
    Sold { seller: u64, buyer: u64, kitty: [u8; 16], price: u64 },
}

/// `new` is `old` with one occurrence of `id` taken out, order aside.
pub open spec fn removed_from(new: Seq<[u8; 16]>, old: Seq<[u8; 16]>, id: [u8; 16]) -> bool {
    &&& new.len() + 1 == old.len()
    &&& forall|d: [u8; 16]| #[trigger] new.contains(d) <==> (old.contains(d) && d != id)
}

/// The ledger's state.
pub struct Pallet {
    kitties: Table<[u8; 16], Kitty>,
    owned: Table<u64, Vec<[u8; 16]>>,
    count: u64,
    max_owned: u32,
    events: Vec<Event>,
}

impl Pallet {
    /// The kitty records, by identifier.
    pub closed spec fn records(&self) -> Map<[u8; 16], Kitty> {
        self.kitties@
    }

    /// The index of the kitties that `who` owns.
    pub closed spec fn owned_ids(&self, who: u64) -> Seq<[u8; 16]> {
        if self.owned@.contains_key(who) {
            self.owned@[who]@
        } else {
            Seq::empty()
        }
    }

    /// How many kitties were minted.
    pub closed spec fn total(&self) -> u64 {
        self.count
    }

    /// The bound on each account's index.
    pub closed spec fn cap(&self) -> nat {
        self.max_owned as nat
    }

    /// The events emitted so far, oldest first.
    pub closed spec fn emitted(&self) -> Seq<Event> {
        self.events@
    }

    pub closed spec fn tables_wf(&self) -> bool {
        self.kitties.wf() && self.owned.wf()
    }

    /// Each record is listed in its owner's index and in no other; each index
    /// holds each identifier once and no more than `cap` of them.
    pub open spec fn consistent(&self) -> bool {
        &&& forall|d: [u8; 16]| #[trigger]
            self.records().contains_key(d) ==> self.records()[d].dna == d && self.owned_ids(
                self.records()[d].owner,
            ).contains(d)
        &&& forall|a: u64, d: [u8; 16]| #[trigger]
            self.owned_ids(a).contains(d) ==> self.records().contains_key(d) && self.records()[d].owner
                == a
        &&& forall|a: u64| #[trigger]
            self.owned_ids(a).no_duplicates() && self.owned_ids(a).len() <= self.cap()
    }

    pub open spec fn wf(&self) -> bool {
        self.tables_wf() && self.consistent()
    }

    /// An empty ledger whose indices hold at most `max_owned` kitties each.
    pub fn new(max_owned: u32) -> (r: Self)
        ensures
            r.wf(),
            r.records() == Map::<[u8; 16], Kitty>::empty(),
            forall|a: u64| #[trigger] r.owned_ids(a) == Seq::<[u8; 16]>::empty(),
            r.total() == 0,
            r.cap() == max_owned,
            r.emitted() == Seq::<Event>::empty(),
    {
        Pallet {
            kitties: Table::new(),
            owned: Table::new(),
            count: 0,
            max_owned,
            events: Vec::new(),
        }
    }

    fn owned_len(&self, who: u64) -> (r: usize)
        requires
            self.tables_wf(),
        ensures
            r == self.owned_ids(who).len(),
    {
        match self.owned.get(&who) {
            Some(ids) => ids.len(),
            None => 0,
        }
    }

    /// Takes `who`'s index out of the table, to be put back after a change.
    fn take_owned(&mut self, who: u64) -> (r: Vec<[u8; 16]>)
        requires
            old(self).tables_wf(),
        ensures
            final(self).tables_wf(),
            r@ == old(self).owned_ids(who),
            final(self).owned@ == old(self).owned@.remove(who),
            final(self).kitties == old(self).kitties,
            final(self).count == old(self).count,
            final(self).max_owned == old(self).max_owned,
            final(self).events == old(self).events,
    {
        match self.owned.take(&who) {
            Some(ids) => ids,
            None => Vec::new(),
        }
    }

    /// Mints a kitty with identifier `dna` to `owner`.
    pub fn mint(&mut self, owner: u64, dna: [u8; 16], gender: Gender) -> (r: Result<[u8; 16], Error>)
        requires
            old(self).wf(),
        ensures
            final(self).wf(),
            mint_outcome(*old(self), *final(self), owner, dna, gender, r),
    {
        if self.kitties.get(&dna).is_some() {
            return Err(Error::DuplicateKitty);
        }
        let new_count = match self.count.checked_add(1) {
            Some(c) => c,
            None => {
                return Err(Error::Overflow);
            },
        };
        if self.owned_len(owner) >= self.max_owned as usize {
            return Err(Error::TooManyOwned);
        }
        let ghost pre = *self;
        let mut ids = self.take_owned(owner);
        ids.push(dna);
        self.owned.set(owner, ids);
        let kitty = Kitty { dna, price: None, gender, owner };
        self.kitties.set(dna, kitty);
        self.count = new_count;
        self.events.push(Event::Created { kitty: dna, owner });
        proof {
            lemma_mint_keeps_consistent(pre, *self, owner, dna, gender);
        }
        Ok(dna)
    }

    /// Moves `kitty` to `to`, taking it out of `from`'s index at `pos` and
    /// clearing its listing; the shared last step of gifts and sales.
    fn relocate(&mut self, kitty: Kitty, to: u64, pos: usize)
        requires
            old(self).wf(),
            old(self).records().contains_key(kitty.dna),
            old(self).records()[kitty.dna] == kitty,
            kitty.owner != to,
            pos < old(self).owned_ids(kitty.owner).len(),
            old(self).owned_ids(kitty.owner)[pos as int] == kitty.dna,
            old(self).owned_ids(to).len() < old(self).cap(),
        ensures
            final(self).wf(),
            relocated(*old(self), *final(self), kitty.dna, kitty.owner, to),
            final(self).emitted() == old(self).emitted().push(
                Event::Transferred { from: kitty.owner, to, kitty: kitty.dna },
            ),
    {
        let ghost pre = *self;
        let id = kitty.dna;
        let from = kitty.owner;
        let mut from_ids = self.take_owned(from);
        proof {
            lemma_swap_remove(from_ids@, pos as int);
        }
        from_ids.swap_remove(pos);
        self.owned.set(from, from_ids);
        let mut to_ids = self.take_owned(to);
        to_ids.push(id);
        self.owned.set(to, to_ids);
        self.kitties.set(id, Kitty { dna: id, price: None, gender: kitty.gender, owner: to });
        self.events.push(Event::Transferred { from, to, kitty: id });
        proof {
            assert forall|a: u64| a != from && a != to implies #[trigger] self.owned_ids(a)
                == pre.owned_ids(a) by {
                assert(self.owned@.contains_key(a) == pre.owned@.contains_key(a));
            }
            assert(self.owned_ids(from) == pre.owned_ids(from).update(
                pos as int,
                pre.owned_ids(from).last(),
            ).drop_last());
            lemma_relocate_keeps_consistent(pre, *self, id, from, to);
        }
    }

    /// Checks that kitty `kitty_id` can move to `to`, and finds it in its
    /// owner's index.
    fn prepare_move(&self, kitty_id: [u8; 16], to: u64) -> (r: Result<(Kitty, usize), Error>)
        requires
            self.wf(),
        ensures
            match r {
                Ok((kitty, pos)) => {
                    &&& transfer_refusal(*self, kitty_id, to, None) is None
                    &&& self.records()[kitty_id] == kitty
                    &&& kitty.dna == kitty_id
                    &&& pos < self.owned_ids(kitty.owner).len()
                    &&& self.owned_ids(kitty.owner)[pos as int] == kitty_id
                },
                Err(e) => transfer_refusal(*self, kitty_id, to, None) == Some(e),
            },
    {
        let kitty = match self.kitties.get(&kitty_id) {
            Some(k) => *k,
            None => {
                return Err(Error::NoKitty);
            },
        };
        let from = kitty.owner;
        if from == to {
            return Err(Error::TransferToSelf);
        }
        let pos = match self.owned.get(&from) {
            Some(ids) => position_of(ids, &kitty_id),
            None => None,
        };
        let pos = match pos {
            Some(i) => i,
            None => {
                proof {
                    assert(self.owned_ids(from).contains(kitty_id));
                }
                return Err(Error::NoKitty);
            },
        };
        if self.owned_len(to) >= self.max_owned as usize {
            return Err(Error::TooManyOwned);
        }
        Ok((kitty, pos))
    }

    /// Moves kitty `kitty_id` to `to`; with `maybe_limit_price` given, it is a
    /// sale: the listing price, at most the bid, goes from `to` to the seller.
    pub fn do_transfer<C: Currency>(
        &mut self,
        currency: &mut C,
        kitty_id: [u8; 16],
        to: u64,
        maybe_limit_price: Option<u64>,
    ) -> (r: Result<(), Error>)
        requires
            old(self).wf(),
            old(currency).ready(),
        ensures
            final(self).wf(),
            final(currency).ready(),
            transfer_outcome(
                *old(self),
                *final(self),
                *old(currency),
                *final(currency),
                kitty_id,
                to,
                maybe_limit_price,
                r,
            ),
    {
        let (kitty, pos) = match self.prepare_move(kitty_id, to) {
            Ok(found) => found,
            Err(e) => {
                return Err(e);
            },
        };
        let from = kitty.owner;
        if let Some(limit_price) = maybe_limit_price {
            if let Some(price) = kitty.price {
                if limit_price < price {
                    return Err(Error::BidPriceTooLow);
                }
                match currency.transfer(to, from, price) {
                    Ok(()) => {},
                    Err(e) => {
                        return Err(Error::Balance(e));
                    },
                }
                self.events.push(Event::Sold { seller: from, buyer: to, kitty: kitty_id, price });
                let ghost mid = *self;
                proof {
                    assert(mid.records() == old(self).records());
                    assert forall|a: u64| #[trigger] mid.owned_ids(a) == old(self).owned_ids(a) by {}
                    assert(mid.tables_wf());
                }
                self.relocate(kitty, to, pos);
                proof {
                    assert forall|a: u64| a != from && a != to implies #[trigger] self.owned_ids(a)
                        == old(self).owned_ids(a) by {
                        assert(mid.owned_ids(a) == old(self).owned_ids(a));
                    }
                }
            } else {
                return Err(Error::NotForSale);
            }
        } else {
            self.relocate(kitty, to, pos);
        }
        Ok(())
    }

    /// Gives kitty `kitty_id`, owned by `sender`, to `to`.
    pub fn transfer(&mut self, sender: u64, to: u64, kitty_id: [u8; 16]) -> (r: Result<(), Error>)
        requires
            old(self).wf(),
        ensures
            final(self).wf(),
            !old(self).records().contains_key(kitty_id) ==> r == Err::<(), Error>(Error::NoKitty)
                && *final(self) == *old(self),
            old(self).records().contains_key(kitty_id) && old(self).records()[kitty_id].owner
                != sender ==> r == Err::<(), Error>(Error::NotOwner) && *final(self) == *old(self),
            old(self).records().contains_key(kitty_id) && old(self).records()[kitty_id].owner
                == sender ==> gift_outcome(*old(self), *final(self), kitty_id, to, r),
    {
        let kitty = match self.kitties.get(&kitty_id) {
            Some(k) => *k,
            None => {
                return Err(Error::NoKitty);
            },
        };
        if kitty.owner != sender {
            return Err(Error::NotOwner);
        }
        let (kitty, pos) = match self.prepare_move(kitty_id, to) {
            Ok(found) => found,
            Err(e) => {
                return Err(e);
            },
        };
        self.relocate(kitty, to, pos);
        Ok(())
    }

    /// Buys kitty `kitty_id` for `buyer`, bidding at most `limit_price`.
    pub fn buy_kitty<C: Currency>(
        &mut self,
        currency: &mut C,
        buyer: u64,
        kitty_id: [u8; 16],
        limit_price: u64,
    ) -> (r: Result<(), Error>)
        requires
            old(self).wf(),
            old(currency).ready(),
        ensures
            final(self).wf(),
            final(currency).ready(),
            transfer_outcome(
                *old(self),
                *final(self),
                *old(currency),
                *final(currency),
                kitty_id,
                buyer,
                Some(limit_price),
                r,
            ),
    {
        self.do_transfer(currency, kitty_id, buyer, Some(limit_price))
    }

    /// Lists kitty `kitty_id` at `new_price`, or takes it off sale with `None`.
    pub fn set_price(&mut self, sender: u64, kitty_id: [u8; 16], new_price: Option<u64>) -> (r:
        Result<(), Error>)
        requires
            old(self).wf(),
        ensures
            final(self).wf(),
            !old(self).records().contains_key(kitty_id) ==> r == Err::<(), Error>(Error::NoKitty)
                && *final(self) == *old(self),
            old(self).records().contains_key(kitty_id) && old(self).records()[kitty_id].owner
                != sender ==> r == Err::<(), Error>(Error::NotOwner) && *final(self) == *old(self),
            old(self).records().contains_key(kitty_id) && old(self).records()[kitty_id].owner
                == sender ==> {
                &&& r == Ok::<(), Error>(())
                &&& final(self).records() == old(self).records().insert(
                    kitty_id,
                    Kitty { price: new_price, ..old(self).records()[kitty_id] },
                )
                &&& forall|a: u64| #[trigger] final(self).owned_ids(a) == old(self).owned_ids(a)
                &&& final(self).total() == old(self).total()
                &&& final(self).cap() == old(self).cap()
                &&& final(self).emitted() == old(self).emitted().push(
                    Event::PriceSet { kitty: kitty_id, price: new_price },
                )
            },
    {
        let mut kitty = match self.kitties.get(&kitty_id) {
            Some(k) => *k,
            None => {
                return Err(Error::NoKitty);
            },
        };
        if kitty.owner != sender {
            return Err(Error::NotOwner);
        }
        let ghost pre = *self;
        kitty.price = new_price;
        self.kitties.set(kitty_id, kitty);
        self.events.push(Event::PriceSet { kitty: kitty_id, price: new_price });
        proof {
            assert forall|a: u64| #[trigger] self.owned_ids(a) == pre.owned_ids(a) by {}
            assert forall|d: [u8; 16]| #[trigger]
                self.records().contains_key(d) implies self.records()[d].dna == d
                && self.owned_ids(self.records()[d].owner).contains(d) by {
                assert(pre.records().contains_key(d));
            }
            assert forall|a: u64, d: [u8; 16]| #[trigger]
                self.owned_ids(a).contains(d) implies self.records().contains_key(d)
                && self.records()[d].owner == a by {
                assert(pre.owned_ids(a).contains(d));
            }
            assert forall|a: u64| #[trigger]
                self.owned_ids(a).no_duplicates() && self.owned_ids(a).len() <= self.cap() by {
                assert(pre.owned_ids(a).no_duplicates());
            }
        }
        Ok(())
    }

    /// Mints to `sender` a kitty with a freshly generated identifier, from the
    /// random value, the index of the operation within the block, and the
    /// block number.
    pub fn create_kitty(
        &mut self,
        sender: u64,
        random: &[u8; 32],
        extrinsic_index: u32,
        block_number: u64,
    ) -> (r: Result<[u8; 16], Error>)
        requires
            old(self).wf(),
        ensures
            final(self).wf(),
            forall|d: [u8; 16]|
                d@ == generated_dna(random@, extrinsic_index, block_number) ==> #[trigger] mint_outcome(
                    *old(self),
                    *final(self),
                    sender,
                    d,
                    gender_of(d@),
                    r,
                ),
    {
        let ghost pre = *self;
        let (dna, gender) = gen_dna(random, extrinsic_index, block_number);
        let r = self.mint(sender, dna, gender);
        proof {
            assert forall|d: [u8; 16]|
                d@ == generated_dna(random@, extrinsic_index, block_number) implies #[trigger] mint_outcome(
                pre,
                *self,
                sender,
                d,
                gender_of(d@),
                r,
            ) by {
                assert(d =~= dna);
            }
        }
        r
    }

    /// Mints to `sender` a kitty derived from two of its kitties of opposite
    /// traits, under a selector generated as `create_kitty` generates one.
    pub fn breed_kitty(
        &mut self,
        sender: u64,
        parent_1: [u8; 16],
        parent_2: [u8; 16],
        random: &[u8; 32],
        extrinsic_index: u32,
        block_number: u64,
    ) -> (r: Result<[u8; 16], Error>)
        requires
            old(self).wf(),
        ensures
            final(self).wf(),
            breed_refusal(*old(self), sender, parent_1, parent_2) matches Some(e) ==> r == Err::<
                [u8; 16],
                Error,
            >(e) && *final(self) == *old(self),
            breed_refusal(*old(self), sender, parent_1, parent_2) is None ==> forall|d: [u8; 16]|
                d@ == derived_dna(
                    parent_1@,
                    parent_2@,
                    generated_dna(random@, extrinsic_index, block_number),
                ) ==> #[trigger] mint_outcome(
                    *old(self),
                    *final(self),
                    sender,
                    d,
                    gender_of(generated_dna(random@, extrinsic_index, block_number)),
                    r,
                ),
    {
        let mom = match self.kitties.get(&parent_1) {
            Some(k) => *k,
            None => {
                return Err(Error::NoKitty);
            },
        };
        let dad = match self.kitties.get(&parent_2) {
            Some(k) => *k,
            None => {
                return Err(Error::NoKitty);
            },
        };
        if mom.owner != sender {
            return Err(Error::NotOwner);
        }
        if dad.owner != sender {
            return Err(Error::NotOwner);
        }
        if mom.gender == dad.gender {
            return Err(Error::CantBreed);
        }
        let ghost pre = *self;
        let (new_dna, new_gender) = breed_dna(
            &parent_1,
            &parent_2,
            random,
            extrinsic_index,
            block_number,
        );
        let r = self.mint(sender, new_dna, new_gender);
        proof {
            assert forall|d: [u8; 16]|
                d@ == derived_dna(
                    parent_1@,
                    parent_2@,
                    generated_dna(random@, extrinsic_index, block_number),
                ) implies #[trigger] mint_outcome(
                pre,
                *self,
                sender,
                d,
                gender_of(generated_dna(random@, extrinsic_index, block_number)),
                r,
            ) by {
                assert(d =~= new_dna);
            }
        }
        r
    }

    /// The record of kitty `kitty_id`, if there is one.
    pub fn kitty(&self, kitty_id: &[u8; 16]) -> (r: Option<Kitty>)
        requires
            self.wf(),
        ensures
            r == (if self.records().contains_key(*kitty_id) {
                Some(self.records()[*kitty_id])
            } else {
                None
            }),
    {
        match self.kitties.get(kitty_id) {
            Some(k) => Some(*k),
            None => None,
        }
    }

    /// The identifiers that `who` owns, in index order.
    pub fn kitties_owned(&self, who: u64) -> (r: Vec<[u8; 16]>)
        requires
            self.wf(),
        ensures
            r@ == self.owned_ids(who),
    {
        let mut out: Vec<[u8; 16]> = Vec::new();
        match self.owned.get(&who) {
            Some(ids) => {
                let mut i: usize = 0;
                while i < ids.len()
                    invariant
                        i <= ids@.len(),
                        out@ == ids@.subrange(0, i as int),
                    decreases ids@.len() - i,
                {
                    out.push(ids[i]);
                    proof {
                        assert(out@ =~= ids@.subrange(0, i + 1));
                    }
                    i = i + 1;
                }
                assert(out@ =~= ids@);
            },
            None => {},
        }
        out
    }

    /// How many kitties were minted.
    pub fn count_for_kitties(&self) -> (r: u64)
        ensures
            r == self.total(),
    {
        self.count
    }

    /// The bound on each account's index.
    pub fn max_kitties_owned(&self) -> (r: u32)
        ensures
            r == self.cap(),
    {
        self.max_owned
    }

    /// The events emitted so far, oldest first.
    pub fn events(&self) -> (r: &Vec<Event>)
        ensures
            r@ == self.emitted(),
    {
        &self.events
    }
}

/// What minting `dna` of trait `gender` to `owner` does: refused with the
/// first error that applies and no change, or done.
pub open spec fn mint_outcome(
    old: Pallet,
    new: Pallet,
    owner: u64,
    dna: [u8; 16],
    gender: Gender,
    r: Result<[u8; 16], Error>,
) -> bool {
    if old.records().contains_key(dna) {
        r == Err::<[u8; 16], Error>(Error::DuplicateKitty) && new == old
    } else if old.total() == u64::MAX {
        r == Err::<[u8; 16], Error>(Error::Overflow) && new == old
    } else if old.owned_ids(owner).len() >= old.cap() {
        r == Err::<[u8; 16], Error>(Error::TooManyOwned) && new == old
    } else {
        r == Ok::<[u8; 16], Error>(dna) && minted(old, new, owner, dna, gender)
    }
}

/// The first reason to refuse moving kitty `id` to `to`, with `limit` the
/// buyer's bid when it is a sale.
pub open spec fn transfer_refusal(old: Pallet, id: [u8; 16], to: u64, limit: Option<u64>) -> Option<
    Error,
> {
    if !old.records().contains_key(id) {
        Some(Error::NoKitty)
    } else if old.records()[id].owner == to {
        Some(Error::TransferToSelf)
    } else if old.owned_ids(to).len() >= old.cap() {
        Some(Error::TooManyOwned)
    } else {
        match limit {
            None => None,
            Some(l) => match old.records()[id].price {
                None => Some(Error::NotForSale),
                Some(p) => if l < p {
                    Some(Error::BidPriceTooLow)
                } else {
                    None
                },
            },
        }
    }
}

/// `new` is `old` after kitty `id` went from `from` to `to`, its listing cleared.
pub open spec fn relocated(old: Pallet, new: Pallet, id: [u8; 16], from: u64, to: u64) -> bool {
    &&& old.records().contains_key(id)
    &&& old.records()[id].owner == from
    &&& from != to
    &&& new.records() == old.records().insert(
        id,
        Kitty { dna: id, price: None, gender: old.records()[id].gender, owner: to },
    )
    &&& removed_from(new.owned_ids(from), old.owned_ids(from), id)
    &&& new.owned_ids(to) == old.owned_ids(to).push(id)
    &&& forall|a: u64| a != from && a != to ==> #[trigger] new.owned_ids(a) == old.owned_ids(a)
    &&& new.total() == old.total()
    &&& new.cap() == old.cap()
}

/// No balance changed.
pub open spec fn funds_unchanged<C: Currency>(old: C, new: C) -> bool {
    forall|a: u64| #[trigger] new.balance(a) == old.balance(a)
}

/// Exactly `amount` went from `payer` to `payee`, and no other balance changed.
pub open spec fn funds_paid<C: Currency>(old: C, new: C, payer: u64, payee: u64, amount: u64) -> bool {
    &&& new.balance(payer) + amount == old.balance(payer)
    &&& new.balance(payee) == old.balance(payee) + amount
    &&& forall|a: u64| a != payer && a != payee ==> #[trigger] new.balance(a) == old.balance(a)
}

/// What moving kitty `id` to `to` does, as a gift (`limit` is `None`) or as a
/// sale at a bid of `limit`: refused with no change, refused by the fund
/// ledger with no change, or done, the buyer paying the listing price.
pub open spec fn transfer_outcome<C: Currency>(
    old: Pallet,
    new: Pallet,
    cold: C,
    cnew: C,
    id: [u8; 16],
    to: u64,
    limit: Option<u64>,
    r: Result<(), Error>,
) -> bool {
    let from = old.records()[id].owner;
    match transfer_refusal(old, id, to, limit) {
        Some(e) => r == Err::<(), Error>(e) && new == old && cnew == cold,
        None => match limit {
            None => {
                &&& r == Ok::<(), Error>(())
                &&& cnew == cold
                &&& relocated(old, new, id, from, to)
                &&& new.emitted() == old.emitted().push(Event::Transferred { from, to, kitty: id })
            },
            Some(_) => {
                let price = old.records()[id].price->0;
                ||| {
                    &&& r is Err
                    &&& r->Err_0 is Balance
                    &&& new == old
                    &&& funds_unchanged(cold, cnew)
                }
                ||| {
                    &&& r == Ok::<(), Error>(())
                    &&& funds_paid(cold, cnew, to, from, price)
                    &&& relocated(old, new, id, from, to)
                    &&& new.emitted() == old.emitted().push(
                        Event::Sold { seller: from, buyer: to, kitty: id, price },
                    ).push(Event::Transferred { from, to, kitty: id })
                }
            },
        },
    }
}

/// `new` is `old` after a kitty `dna` of trait `gender` was minted to `owner`.
pub open spec fn minted(old: Pallet, new: Pallet, owner: u64, dna: [u8; 16], gender: Gender) -> bool {
    &&& !old.records().contains_key(dna)
    &&& new.records() == old.records().insert(
        dna,
        Kitty { dna, price: None, gender, owner },
    )
    &&& new.owned_ids(owner) == old.owned_ids(owner).push(dna)
    &&& forall|a: u64| a != owner ==> #[trigger] new.owned_ids(a) == old.owned_ids(a)
    &&& new.total() == old.total() + 1
    &&& new.cap() == old.cap()
    &&& new.emitted() == old.emitted().push(Event::Created { kitty: dna, owner })
}

proof fn lemma_mint_keeps_consistent(
    old: Pallet,
    new: Pallet,
    owner: u64,
    dna: [u8; 16],
    gender: Gender,
)
    requires
        old.wf(),
        new.tables_wf(),
        !old.records().contains_key(dna),
        old.owned_ids(owner).len() < old.cap(),
        old.total() < u64::MAX,
        new.kitties@ == old.kitties@.insert(dna, Kitty { dna, price: None, gender, owner }),
        new.owned@.contains_key(owner),
        new.owned@ == old.owned@.remove(owner).insert(owner, new.owned@[owner]),
        new.owned@[owner]@ == old.owned_ids(owner).push(dna),
        new.count == old.count + 1,
        new.max_owned == old.max_owned,
        new.events@ == old.events@.push(Event::Created { kitty: dna, owner }),
    ensures
        new.wf(),
        minted(old, new, owner, dna, gender),
{
    assert forall|a: u64| a != owner implies #[trigger] new.owned_ids(a) == old.owned_ids(a) by {
        assert(new.owned@.contains_key(a) == old.owned@.contains_key(a));
    }
    let olds = old.owned_ids(owner);
    assert(new.owned_ids(owner) == olds.push(dna));
    assert forall|d: [u8; 16]| #[trigger] new.records().contains_key(d) implies new.records()[d].dna
        == d && new.owned_ids(new.records()[d].owner).contains(d) by {
        if d == dna {
            assert(new.owned_ids(owner)[olds.len() as int] == dna);
        } else {
            let a = old.records()[d].owner;
            assert(old.owned_ids(a).contains(d));
            if a == owner {
                let i = choose|i: int| 0 <= i < olds.len() && olds[i] == d;
                assert(new.owned_ids(owner)[i] == d);
            }
        }
    }
    assert forall|a: u64, d: [u8; 16]| #[trigger]
        new.owned_ids(a).contains(d) implies new.records().contains_key(d) && new.records()[d].owner
        == a by {
        if a == owner {
            let i = choose|i: int| 0 <= i < new.owned_ids(a).len() && new.owned_ids(a)[i] == d;
            if i < olds.len() {
                assert(olds[i] == d);
                assert(olds.contains(d));
            }
        } else {
            assert(old.owned_ids(a).contains(d));
        }
    }
    assert forall|a: u64| #[trigger]
        new.owned_ids(a).no_duplicates() && new.owned_ids(a).len() <= new.cap() by {
        assert(old.owned_ids(a).no_duplicates());
        if a == owner {
            assert forall|i: int| 0 <= i < olds.len() implies olds[i] != dna by {
                assert(olds.contains(olds[i]));
            }
        }
    }
}

/// The first reason to refuse breeding `parent_1` with `parent_2` for `sender`.
pub open spec fn breed_refusal(old: Pallet, sender: u64, parent_1: [u8; 16], parent_2: [u8; 16]) -> Option<
    Error,
> {
    if !old.records().contains_key(parent_1) || !old.records().contains_key(parent_2) {
        Some(Error::NoKitty)
    } else if old.records()[parent_1].owner != sender || old.records()[parent_2].owner != sender {
        Some(Error::NotOwner)
    } else if old.records()[parent_1].gender == old.records()[parent_2].gender {
        Some(Error::CantBreed)
    } else {
        None
    }
}

/// What giving kitty `id` to `to` does, its owner having asked.
pub open spec fn gift_outcome(old: Pallet, new: Pallet, id: [u8; 16], to: u64, r: Result<(), Error>) -> bool {
    let from = old.records()[id].owner;
    match transfer_refusal(old, id, to, None) {
        Some(e) => r == Err::<(), Error>(e) && new == old,
        None => {
            &&& r == Ok::<(), Error>(())
            &&& relocated(old, new, id, from, to)
            &&& new.emitted() == old.emitted().push(Event::Transferred { from, to, kitty: id })
        },
    }
}

/// Where `id` stands in `ids`, if it does.
fn position_of(ids: &Vec<[u8; 16]>, id: &[u8; 16]) -> (r: Option<usize>)
    ensures
        match r {
            Some(i) => i < ids@.len() && ids@[i as int] == *id,
            None => !ids@.contains(*id),
        },
{
    let mut i: usize = 0;
    while i < ids.len()
        invariant
            i <= ids@.len(),
            forall|j: int| 0 <= j < i ==> ids@[j] != *id,
        decreases ids@.len() - i,
    {
        if ids[i].same_key(id) {
            return Some(i);
        }
        i = i + 1;
    }
    None
}

/// Swap-removing the element at `i` takes out that element and no other.
proof fn lemma_swap_remove(s: Seq<[u8; 16]>, i: int)
    requires
        s.no_duplicates(),
        0 <= i < s.len(),
    ensures
        removed_from(s.update(i, s.last()).drop_last(), s, s[i]),
        s.update(i, s.last()).drop_last().no_duplicates(),
{
    let r = s.update(i, s.last()).drop_last();
    let last = s.len() - 1;
    assert forall|j: int| 0 <= j < r.len() implies r[j] == s[if j == i { last } else { j }] by {}
    assert forall|d: [u8; 16]| #[trigger] r.contains(d) <==> (s.contains(d) && d != s[i]) by {
        if r.contains(d) {
            let j = choose|j: int| 0 <= j < r.len() && r[j] == d;
            let oj = if j == i { last } else { j };
            assert(s[oj] == d);
            assert(oj != i);
        }
        if s.contains(d) && d != s[i] {
            let k = choose|k: int| 0 <= k < s.len() && s[k] == d;
            if k == last {
                assert(r[i] == d);
            } else {
                assert(r[k] == d);
            }
        }
    }
    assert forall|a: int, b: int| 0 <= a < r.len() && 0 <= b < r.len() && a != b implies r[a]
        != r[b] by {
        let oa = if a == i { last } else { a };
        let ob = if b == i { last } else { b };
        assert(s[oa] == r[a]);
        assert(s[ob] == r[b]);
    }
}

proof fn lemma_relocate_keeps_consistent(old: Pallet, new: Pallet, id: [u8; 16], from: u64, to: u64)
    requires
        old.wf(),
        new.tables_wf(),
        old.records().contains_key(id),
        old.records()[id].owner == from,
        from != to,
        old.owned_ids(to).len() < old.cap(),
        new.records() == old.records().insert(
            id,
            Kitty { dna: id, price: None, gender: old.records()[id].gender, owner: to },
        ),
        removed_from(new.owned_ids(from), old.owned_ids(from), id),
        new.owned_ids(from).no_duplicates(),
        new.owned_ids(to) == old.owned_ids(to).push(id),
        forall|a: u64| a != from && a != to ==> #[trigger] new.owned_ids(a) == old.owned_ids(a),
        new.total() == old.total(),
        new.cap() == old.cap(),
    ensures
        new.wf(),
        relocated(old, new, id, from, to),
{
    let olds = old.owned_ids(to);
    assert(!olds.contains(id)) by {
        if olds.contains(id) {
            assert(old.records()[id].owner == to);
        }
    }
    assert forall|d: [u8; 16]| #[trigger] new.records().contains_key(d) implies new.records()[d].dna
        == d && new.owned_ids(new.records()[d].owner).contains(d) by {
        if d == id {
            assert(new.owned_ids(to)[olds.len() as int] == id);
        } else {
            let a = old.records()[d].owner;
            assert(old.owned_ids(a).contains(d));
            if a == to {
                let i = choose|i: int| 0 <= i < olds.len() && olds[i] == d;
                assert(new.owned_ids(to)[i] == d);
            }
        }
    }
    assert forall|a: u64, d: [u8; 16]| #[trigger]
        new.owned_ids(a).contains(d) implies new.records().contains_key(d) && new.records()[d].owner
        == a by {
        if a == to {
            let i = choose|i: int| 0 <= i < new.owned_ids(a).len() && new.owned_ids(a)[i] == d;
            if i < olds.len() {
                assert(olds[i] == d);
                assert(olds.contains(d));
            }
        } else if a == from {
            assert(old.owned_ids(a).contains(d));
        } else {
            assert(old.owned_ids(a).contains(d));
        }
    }
    assert forall|a: u64| #[trigger]
        new.owned_ids(a).no_duplicates() && new.owned_ids(a).len() <= new.cap() by {
        assert(old.owned_ids(a).no_duplicates());
        if a == to {
            assert forall|i: int| 0 <= i < olds.len() implies olds[i] != id by {
                assert(olds.contains(olds[i]));
            }
        }
    }
}

} // verus!
