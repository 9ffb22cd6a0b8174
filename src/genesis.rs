//! The kitties a ledger starts with.
use vstd::prelude::*;
use crate::dna::Gender;
use crate::ledger::{Error, Kitty, Pallet};

verus! {

/// How many of `entries` go to `who`.
pub open spec fn owner_count(entries: Seq<(u64, [u8; 16], Gender)>, who: u64) -> nat
    decreases entries.len(),
{
    if entries.len() == 0 {
        0
    } else {
        owner_count(entries.drop_last(), who) + if entries.last().0 == who {
            1nat
        } else {
            0nat
        }
    }
}

/// Minting `entries` in order into `s` meets no refusal: the identifiers are
/// new and distinct, the count fits, and no index outgrows the bound.
pub open spec fn genesis_fits(s: Pallet, entries: Seq<(u64, [u8; 16], Gender)>) -> bool {
    &&& forall|i: int, j: int| 0 <= i < j < entries.len() ==> entries[i].1 != entries[j].1
    &&& forall|i: int| 0 <= i < entries.len() ==> !s.records().contains_key(#[trigger] entries[i].1)
    &&& s.total() + entries.len() <= u64::MAX
    &&& forall|a: u64| s.owned_ids(a).len() + #[trigger] owner_count(entries, a) <= s.cap()
}

/// Kitty `e.1` of trait `e.2` is recorded as owned by `e.0`, and not for sale.
pub open spec fn holds_entry(s: Pallet, e: (u64, [u8; 16], Gender)) -> bool {
    s.records().contains_key(e.1) && s.records()[e.1] == Kitty {
        dna: e.1,
        price: None,
        gender: e.2,
        owner: e.0,
    }
}

/// The kitties to mint when a ledger starts: owner, identifier and trait.
pub struct GenesisConfig {
    pub kitties: Vec<(u64, [u8; 16], Gender)>,
}

impl Default for GenesisConfig {
    fn default() -> (r: GenesisConfig)
        ensures
            r.kitties@ == Seq::<(u64, [u8; 16], Gender)>::empty(),
    {
        GenesisConfig { kitties: Vec::new() }
    }
}

proof fn lemma_owner_count_prefix(entries: Seq<(u64, [u8; 16], Gender)>, n: int, who: u64)
    requires
        0 <= n <= entries.len(),
    ensures
        owner_count(entries.subrange(0, n), who) <= owner_count(entries, who),
    decreases entries.len() - n,
{
    if n < entries.len() {
        lemma_owner_count_prefix(entries, n + 1, who);
        assert(entries.subrange(0, n + 1).drop_last() =~= entries.subrange(0, n));
    } else {
        assert(entries.subrange(0, n) =~= entries);
    }
}

impl GenesisConfig {
    /// Mints each kitty in order into `pallet`, stopping at the first refusal.
    pub fn build(&self, pallet: &mut Pallet) -> (r: Result<(), Error>)
        requires
            old(pallet).wf(),
        ensures
            final(pallet).wf(),
            final(pallet).cap() == old(pallet).cap(),
            genesis_fits(*old(pallet), self.kitties@) ==> r is Ok,
            r is Ok ==> final(pallet).total() == old(pallet).total() + self.kitties@.len(),
            r is Ok ==> forall|i: int|
                0 <= i < self.kitties@.len() ==> holds_entry(*final(pallet), #[trigger] self.kitties@[i]),
    {
        let ghost start = *pallet;
        let ghost entries = self.kitties@;
        let mut i: usize = 0;
        while i < self.kitties.len()
            invariant
                i <= entries.len(),
                entries == self.kitties@,
                start == *old(pallet),
                pallet.wf(),
                pallet.cap() == start.cap(),
                pallet.total() == start.total() + i,
                forall|j: int| 0 <= j < i ==> holds_entry(*pallet, #[trigger] entries[j]),
                forall|d: [u8; 16]|
                    pallet.records().contains_key(d) ==> start.records().contains_key(d) || exists|
                        j: int,
                    | 0 <= j < i && #[trigger] entries[j].1 == d,
                forall|a: u64|
                    #[trigger] pallet.owned_ids(a).len() == start.owned_ids(a).len() + owner_count(
                        entries.subrange(0, i as int),
                        a,
                    ),
            decreases entries.len() - i,
        {
            let (owner, dna, gender) = self.kitties[i];
            let ghost pre = *pallet;
            proof {
                assert(entries.subrange(0, i + 1).drop_last() =~= entries.subrange(0, i as int));
                if genesis_fits(start, entries) {
                    if pre.records().contains_key(dna) {
                        let j = choose|j: int| 0 <= j < i && #[trigger] entries[j].1 == dna;
                        assert(entries[j].1 != entries[i as int].1);
                    }
                    lemma_owner_count_prefix(entries, i + 1, owner);
                    assert(start.owned_ids(owner).len() + owner_count(entries, owner) <= start.cap());
                    assert(pre.owned_ids(owner).len() == start.owned_ids(owner).len() + owner_count(
                        entries.subrange(0, i as int),
                        owner,
                    ));
                    assert(owner_count(entries.subrange(0, i + 1), owner) == owner_count(
                        entries.subrange(0, i as int),
                        owner,
                    ) + 1);
                    assert(!pre.records().contains_key(dna));
                    assert(pre.owned_ids(owner).len() < pre.cap());
                    assert(pre.total() < u64::MAX);
                }
            }
            let res = pallet.mint(owner, dna, gender);
            match res {
                Ok(_) => {},
                Err(e) => {
                    assert(*pallet == pre);
                    assert(!genesis_fits(start, entries));
                    return Err(e);
                },
            }
            proof {
                assert forall|j: int| 0 <= j <= i implies holds_entry(*pallet, #[trigger] entries[j]) by {
                    if j < i {
                        assert(holds_entry(pre, entries[j]));
                    }
                }
                assert forall|d: [u8; 16]| pallet.records().contains_key(d) implies start.records().contains_key(
                    d,
                ) || exists|j: int| 0 <= j < i + 1 && #[trigger] entries[j].1 == d by {
                    if d == dna {
                        assert(entries[i as int].1 == d);
                    } else {
                        assert(pre.records().contains_key(d));
                    }
                }
                assert forall|a: u64| #[trigger]
                    pallet.owned_ids(a).len() == start.owned_ids(a).len() + owner_count(
                        entries.subrange(0, i + 1),
                        a,
                    ) by {
                    assert(pre.owned_ids(a).len() == start.owned_ids(a).len() + owner_count(
                        entries.subrange(0, i as int),
                        a,
                    ));
                }
            }
            i = i + 1;
        }
        Ok(())
    }
}

} // verus!
