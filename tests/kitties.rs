use kitties::balances::{BalanceError, Balances};
use kitties::dna::{breed_dna, derive_dna, encode_payload, gen_dna, Gender};
use kitties::genesis::GenesisConfig;
use kitties::ledger::{Error, Event, Pallet};

const MAX_KITTIES_OWNED: u32 = 9999;

/// A ledger, its fund ledger, and the block position that generation reads.
struct Ext {
    kitties: Pallet,
    balances: Balances,
    random: [u8; 32],
    block_number: u64,
    extrinsic_index: u32,
}

impl Ext {
    fn create_kitty(&mut self, who: u64) -> Result<[u8; 16], Error> {
        let random = self.random;
        self.kitties.create_kitty(who, &random, self.extrinsic_index, self.block_number)
    }

    fn breed_kitty(&mut self, who: u64, p1: [u8; 16], p2: [u8; 16]) -> Result<[u8; 16], Error> {
        let random = self.random;
        self.kitties.breed_kitty(who, p1, p2, &random, self.extrinsic_index, self.block_number)
    }

    fn buy_kitty(&mut self, who: u64, id: [u8; 16], limit: u64) -> Result<(), Error> {
        self.kitties.buy_kitty(&mut self.balances, who, id, limit)
    }

    fn snapshot(&self, accounts: &[u64]) -> (u64, usize, Vec<Vec<[u8; 16]>>, Vec<u64>) {
        (
            self.kitties.count_for_kitties(),
            self.kitties.events().len(),
            accounts.iter().map(|a| self.kitties.kitties_owned(*a)).collect(),
            accounts.iter().map(|a| self.balances.free_balance(*a)).collect(),
        )
    }
}

fn new_test_ext(users: Vec<(u64, [u8; 16], Gender)>) -> Ext {
    new_test_ext_with(users, MAX_KITTIES_OWNED)
}

fn new_test_ext_with(users: Vec<(u64, [u8; 16], Gender)>, max_owned: u32) -> Ext {
    let mut balances = Balances::new(1);
    for (user, _, _) in &users {
        balances.set_balance(*user, 10);
    }
    let mut kitties = Pallet::new(max_owned);
    let genesis = GenesisConfig { kitties: users };
    assert!(genesis.build(&mut kitties).is_ok());
    Ext { kitties, balances, random: [7u8; 32], block_number: 1, extrinsic_index: 0 }
}

fn assert_ownership(ext: &Ext, owner: u64, kitty_id: [u8; 16], accounts: &[u64]) {
    let kitty = ext.kitties.kitty(&kitty_id).unwrap();
    assert_eq!(kitty.owner, owner);
    for check_owner in accounts {
        let owned = ext.kitties.kitties_owned(*check_owner);
        if owner == *check_owner {
            assert!(owned.contains(&kitty_id));
        } else {
            assert!(!owned.contains(&kitty_id));
        }
    }
}

#[test]
fn should_build_genesis_kitties() {
    let ext = new_test_ext(vec![
        (1, *b"6834567890123456", Gender::Female),
        (2, *b"593456789012345a", Gender::Male),
    ]);
    assert_eq!(ext.kitties.count_for_kitties(), 2);

    let kitties_owned_by_1 = ext.kitties.kitties_owned(1);
    assert_eq!(kitties_owned_by_1.len(), 1);

    let kitties_owned_by_2 = ext.kitties.kitties_owned(2);
    assert_eq!(kitties_owned_by_2.len(), 1);

    let kitty_1 = kitties_owned_by_1[0];
    assert_ownership(&ext, 1, kitty_1, &[1, 2]);

    let kitty_2 = kitties_owned_by_2[0];
    assert_ownership(&ext, 2, kitty_2, &[1, 2]);
}

#[test]
fn create_kitty_should_work() {
    let mut ext = new_test_ext(vec![]);
    assert!(ext.create_kitty(10).is_ok());

    assert_eq!(ext.kitties.count_for_kitties(), 1);

    let kitties_owned = ext.kitties.kitties_owned(10);
    assert_eq!(kitties_owned.len(), 1);
    let id = kitties_owned.last().unwrap();
    assert_ownership(&ext, 10, *id, &[10]);

    ext.extrinsic_index = 1;
    assert!(ext.create_kitty(10).is_ok());
}

#[test]
fn create_kitty_fails() {
    let mut ext = new_test_ext(vec![]);
    for _i in 0..MAX_KITTIES_OWNED {
        assert!(ext.create_kitty(10).is_ok());
        ext.block_number += 1;
    }

    let before = ext.snapshot(&[10]);
    assert_eq!(ext.create_kitty(10), Err(Error::TooManyOwned));
    assert_eq!(ext.snapshot(&[10]), before);

    let id = [0u8; 16];

    assert!(ext.kitties.mint(1, id, Gender::Male).is_ok());

    let before = ext.snapshot(&[1, 10]);
    assert_eq!(ext.kitties.mint(1, id, Gender::Male), Err(Error::DuplicateKitty));
    assert_eq!(ext.snapshot(&[1, 10]), before);
}

#[test]
fn transfer_kitty_should_work() {
    let mut ext = new_test_ext(vec![]);
    assert!(ext.create_kitty(10).is_ok());
    let id = ext.kitties.kitties_owned(10)[0];

    assert!(ext.kitties.transfer(10, 3, id).is_ok());

    assert_eq!(ext.kitties.kitties_owned(10).len(), 0);

    assert_eq!(ext.kitties.kitties_owned(3).len(), 1);
    assert_ownership(&ext, 3, id, &[3, 10]);
}

#[test]
fn transfer_kitty_should_fail() {
    let mut ext = new_test_ext(vec![
        (1, *b"5634567890123456", Gender::Female),
        (2, *b"673456789012345a", Gender::Male),
    ]);
    let dna = ext.kitties.kitties_owned(1)[0];
    let accounts = [1, 2, 9, 10];

    let before = ext.snapshot(&accounts);
    assert_eq!(ext.kitties.transfer(9, 2, dna), Err(Error::NotOwner));
    assert_eq!(ext.snapshot(&accounts), before);

    assert_eq!(ext.kitties.transfer(1, 1, dna), Err(Error::TransferToSelf));
    assert_eq!(ext.snapshot(&accounts), before);

    let random_id = [0u8; 16];

    assert_eq!(ext.kitties.transfer(2, 1, random_id), Err(Error::NoKitty));
    assert_eq!(ext.snapshot(&accounts), before);

    for _i in 0..MAX_KITTIES_OWNED {
        assert!(ext.create_kitty(10).is_ok());
        ext.block_number += 1;
    }

    let before = ext.snapshot(&accounts);
    assert_eq!(ext.kitties.transfer(1, 10, dna), Err(Error::TooManyOwned));
    assert_eq!(ext.snapshot(&accounts), before);
}

#[test]
fn breed_kitty_works() {
    let mut ext = new_test_ext(vec![(2, *b"123456789012345a", Gender::Male)]);
    let mom = [0u8; 16];
    assert!(ext.kitties.mint(1, mom, Gender::Female).is_ok());

    let dad = [1u8; 16];
    assert!(ext.kitties.mint(1, dad, Gender::Male).is_ok());

    assert!(ext.breed_kitty(1, mom, dad).is_ok());

    let new_dna = ext.kitties.kitties_owned(1)[2];
    for &i in new_dna.iter() {
        assert!(i == 0u8 || i == 1u8)
    }

    let accounts = [1, 2];
    let before = ext.snapshot(&accounts);
    assert_eq!(ext.breed_kitty(1, mom, mom), Err(Error::CantBreed));
    assert_eq!(ext.snapshot(&accounts), before);

    let kitty_1 = ext.kitties.kitties_owned(1)[0];

    let kitty_2 = ext.kitties.kitties_owned(2)[0];
    assert_eq!(ext.breed_kitty(1, kitty_1, kitty_2), Err(Error::NotOwner));
    assert_eq!(ext.snapshot(&accounts), before);
}

#[test]
fn breed_kitty_fails() {
    let mut ext = new_test_ext(vec![]);
    let kitty_1 = [1u8; 16];
    let kitty_2 = [3u8; 16];

    assert!(ext.kitties.mint(3, kitty_1, Gender::Female).is_ok());
    assert!(ext.kitties.mint(3, kitty_2, Gender::Female).is_ok());

    let kitty_3 = [4u8; 16];
    assert!(ext.kitties.mint(3, kitty_3, Gender::Male).is_ok());

    let before = ext.snapshot(&[3]);
    assert_eq!(ext.breed_kitty(3, kitty_1, kitty_2), Err(Error::CantBreed));
    assert_eq!(ext.snapshot(&[3]), before);

    for _i in 0..MAX_KITTIES_OWNED - 3 {
        assert!(ext.create_kitty(3).is_ok());
        ext.block_number += 1;
    }

    let before = ext.snapshot(&[3]);
    assert_eq!(ext.breed_kitty(3, kitty_1, kitty_3), Err(Error::TooManyOwned));
    assert_eq!(ext.snapshot(&[3]), before);
}

#[test]
fn dna_helpers_work_as_expected() {
    let ext = new_test_ext(vec![]);
    let dna_1 = [1u8; 16];
    let dna_2 = [2u8; 16];

    let (dna, _) = breed_dna(&dna_1, &dna_2, &ext.random, ext.extrinsic_index, ext.block_number);

    for &i in dna.iter() {
        assert!(i == 1u8 || i == 2u8)
    }

    let (random_dna_1, _) = gen_dna(&ext.random, 0, ext.block_number);
    let (random_dna_2, _) = gen_dna(&ext.random, 1, ext.block_number);
    assert_ne!(random_dna_1, random_dna_2);
}

#[test]
fn buy_kitty_works() {
    let mut ext = new_test_ext(vec![
        (1, *b"1234567890123456", Gender::Female),
        (2, *b"123456789012345a", Gender::Male),
        (3, *b"1234567890123451", Gender::Male),
    ]);
    let id = ext.kitties.kitties_owned(2)[0];
    let set_price = 4;
    let balance_1_before = ext.balances.free_balance(1);
    let balance_2_before = ext.balances.free_balance(2);

    assert!(ext.kitties.set_price(2, id, Some(set_price)).is_ok());

    let limit_price = 6;
    assert!(ext.buy_kitty(1, id, limit_price).is_ok());

    let balance_1_after = ext.balances.free_balance(1);
    let balance_2_after = ext.balances.free_balance(2);

    assert_eq!(balance_1_before - set_price, balance_1_after);
    assert_eq!(balance_2_before + set_price, balance_2_after);

    let accounts = [1, 2, 3];
    let before = ext.snapshot(&accounts);
    assert_eq!(ext.buy_kitty(3, id, set_price), Err(Error::NotForSale));
    assert_eq!(ext.snapshot(&accounts), before);
}

#[test]
fn buy_kitty_fails() {
    let mut ext = new_test_ext(vec![
        (1, *b"1234567890123456", Gender::Female),
        (2, *b"123456789012345a", Gender::Male),
        (10, *b"1234567890123410", Gender::Male),
    ]);
    let accounts = [1, 2, 10];
    let id = ext.kitties.kitties_owned(1)[0];
    let before = ext.snapshot(&accounts);
    assert_eq!(ext.buy_kitty(2, id, 2), Err(Error::NotForSale));
    assert_eq!(ext.snapshot(&accounts), before);

    let id = ext.kitties.kitties_owned(2)[0];
    let set_price = 4;
    assert!(ext.kitties.set_price(2, id, Some(set_price)).is_ok());

    let before = ext.snapshot(&accounts);
    assert_eq!(ext.buy_kitty(10, id, set_price / 2), Err(Error::BidPriceTooLow));
    assert_eq!(ext.snapshot(&accounts), before);

    let balance_of_account_10 = ext.balances.free_balance(10);

    assert!(ext.kitties.set_price(2, id, Some(balance_of_account_10 * 10)).is_ok());

    let before = ext.snapshot(&accounts);
    assert_eq!(
        ext.buy_kitty(10, id, balance_of_account_10 * 10),
        Err(Error::Balance(BalanceError::InsufficientBalance))
    );
    assert_eq!(ext.snapshot(&accounts), before);
}

#[test]
fn set_price_works() {
    let mut ext = new_test_ext(vec![
        (1, *b"1234567890123456", Gender::Female),
        (2, *b"123456789012345a", Gender::Male),
    ]);
    let id = ext.kitties.kitties_owned(2)[0];
    let set_price = 4;
    assert!(ext.kitties.set_price(2, id, Some(set_price)).is_ok());

    assert_eq!(ext.kitties.set_price(1, id, Some(set_price)), Err(Error::NotOwner));

    let non_dna = [2u8; 16];
    assert_eq!(ext.kitties.set_price(1, non_dna, Some(set_price)), Err(Error::NoKitty));
}

#[test]
fn capacity_scenario_keeps_index() {
    let mut ext = new_test_ext_with(vec![], 2);
    let a = [0xa0u8; 16];
    let b = [0xb0u8; 16];
    let c = [0xc0u8; 16];
    assert_eq!(ext.kitties.mint(1, a, Gender::Male), Ok(a));
    assert_eq!(ext.kitties.mint(1, b, Gender::Female), Ok(b));
    assert_eq!(ext.kitties.kitties_owned(1).len(), 2);
    assert_eq!(ext.kitties.mint(1, c, Gender::Male), Err(Error::TooManyOwned));
    let owned = ext.kitties.kitties_owned(1);
    assert_eq!(owned.len(), 2);
    assert!(owned.contains(&a) && owned.contains(&b));
    assert_eq!(ext.kitties.kitty(&c), None);
    assert_eq!(ext.kitties.count_for_kitties(), 2);
}

#[test]
fn low_bid_leaves_sale_untouched() {
    let mut ext = new_test_ext(vec![(1, [0x11u8; 16], Gender::Male), (2, [0x22u8; 16], Gender::Female)]);
    let x = [0x11u8; 16];
    assert!(ext.kitties.set_price(1, x, Some(10)).is_ok());
    let before = ext.snapshot(&[1, 2]);
    assert_eq!(ext.buy_kitty(2, x, 5), Err(Error::BidPriceTooLow));
    assert_eq!(ext.snapshot(&[1, 2]), before);
    let kitty = ext.kitties.kitty(&x).unwrap();
    assert_eq!(kitty.owner, 1);
    assert_eq!(kitty.price, Some(10));
}

#[test]
fn buyer_below_reserve_cannot_pay() {
    let mut ext = new_test_ext(vec![(1, [0x11u8; 16], Gender::Male)]);
    let x = [0x11u8; 16];
    // Account 2 holds the price less the reserve it must keep.
    ext.balances.set_balance(2, 10 - ext.balances.existential_deposit());
    assert!(ext.kitties.set_price(1, x, Some(10)).is_ok());
    let before = ext.snapshot(&[1, 2]);
    assert_eq!(ext.buy_kitty(2, x, 10), Err(Error::Balance(BalanceError::InsufficientBalance)));
    assert_eq!(ext.snapshot(&[1, 2]), before);
    let kitty = ext.kitties.kitty(&x).unwrap();
    assert_eq!(kitty.owner, 1);
    assert_eq!(kitty.price, Some(10));
}

#[test]
fn buyer_must_keep_reserve() {
    let mut ext = new_test_ext(vec![(1, [0x11u8; 16], Gender::Male)]);
    let x = [0x11u8; 16];
    ext.balances.set_balance(2, 10);
    assert!(ext.kitties.set_price(1, x, Some(10)).is_ok());
    assert_eq!(ext.buy_kitty(2, x, 10), Err(Error::Balance(BalanceError::InsufficientBalance)));
    ext.balances.set_balance(2, 11);
    assert_eq!(ext.buy_kitty(2, x, 10), Ok(()));
    assert_eq!(ext.balances.free_balance(2), 1);
    assert_eq!(ext.balances.free_balance(1), 20);
    let kitty = ext.kitties.kitty(&x).unwrap();
    assert_eq!(kitty.owner, 2);
    assert_eq!(kitty.price, None);
    assert_eq!(ext.kitties.kitties_owned(1), Vec::<[u8; 16]>::new());
    assert_eq!(ext.kitties.kitties_owned(2), vec![x]);
    let events = ext.kitties.events();
    let n = events.len();
    assert_eq!(events[n - 2], Event::Sold { seller: 1, buyer: 2, kitty: x, price: 10 });
    assert_eq!(events[n - 1], Event::Transferred { from: 1, to: 2, kitty: x });
}

#[test]
fn same_trait_parents_mint_nothing() {
    let mut ext = new_test_ext(vec![(1, [1u8; 16], Gender::Female), (1, [2u8; 16], Gender::Female)]);
    let count = ext.kitties.count_for_kitties();
    let events = ext.kitties.events().len();
    assert_eq!(ext.breed_kitty(1, [1u8; 16], [2u8; 16]), Err(Error::CantBreed));
    assert_eq!(ext.kitties.count_for_kitties(), count);
    assert_eq!(ext.kitties.events().len(), events);
    assert_eq!(ext.kitties.kitties_owned(1).len(), 2);
}

#[test]
fn breeding_missing_parent_is_refused() {
    let mut ext = new_test_ext(vec![(1, [1u8; 16], Gender::Female)]);
    assert_eq!(ext.breed_kitty(1, [1u8; 16], [9u8; 16]), Err(Error::NoKitty));
    assert_eq!(ext.breed_kitty(1, [9u8; 16], [1u8; 16]), Err(Error::NoKitty));
}

#[test]
fn bred_kitty_takes_generated_trait_and_derived_dna() {
    let mut ext = new_test_ext(vec![(1, [0u8; 16], Gender::Female), (1, [0xffu8; 16], Gender::Male)]);
    let (selector, gender) = gen_dna(&ext.random, ext.extrinsic_index, ext.block_number);
    let expected = derive_dna(&[0u8; 16], &[0xffu8; 16], &selector);
    let child = ext.breed_kitty(1, [0u8; 16], [0xffu8; 16]).unwrap();
    assert_eq!(child, expected);
    let kitty = ext.kitties.kitty(&child).unwrap();
    assert_eq!(kitty.gender, gender);
    assert_eq!(kitty.owner, 1);
    assert_eq!(kitty.price, None);
}

#[test]
fn mint_records_and_emits() {
    let mut ext = new_test_ext(vec![]);
    let id = [5u8; 16];
    assert_eq!(ext.kitties.kitty(&id), None);
    assert_eq!(ext.kitties.mint(4, id, Gender::Female), Ok(id));
    let kitty = ext.kitties.kitty(&id).unwrap();
    assert_eq!((kitty.dna, kitty.owner, kitty.gender, kitty.price), (id, 4, Gender::Female, None));
    assert_eq!(ext.kitties.count_for_kitties(), 1);
    assert_eq!(ext.kitties.events().last(), Some(&Event::Created { kitty: id, owner: 4 }));
}

#[test]
fn set_price_lists_and_unlists() {
    let mut ext = new_test_ext(vec![(1, [3u8; 16], Gender::Male)]);
    let id = [3u8; 16];
    assert_eq!(ext.kitties.set_price(1, id, Some(7)), Ok(()));
    assert_eq!(ext.kitties.kitty(&id).unwrap().price, Some(7));
    assert_eq!(ext.kitties.events().last(), Some(&Event::PriceSet { kitty: id, price: Some(7) }));
    assert_eq!(ext.kitties.set_price(1, id, None), Ok(()));
    assert_eq!(ext.kitties.kitty(&id).unwrap().price, None);
}

#[test]
fn gift_clears_listing() {
    let mut ext = new_test_ext(vec![(1, [3u8; 16], Gender::Male)]);
    let id = [3u8; 16];
    assert!(ext.kitties.set_price(1, id, Some(7)).is_ok());
    assert_eq!(ext.kitties.transfer(1, 2, id), Ok(()));
    let kitty = ext.kitties.kitty(&id).unwrap();
    assert_eq!((kitty.owner, kitty.price), (2, None));
    assert_eq!(ext.kitties.events().last(), Some(&Event::Transferred { from: 1, to: 2, kitty: id }));
}

#[test]
fn swap_remove_keeps_other_kitties() {
    let mut ext = new_test_ext(vec![
        (1, [1u8; 16], Gender::Male),
        (1, [2u8; 16], Gender::Male),
        (1, [3u8; 16], Gender::Male),
    ]);
    assert_eq!(ext.kitties.transfer(1, 2, [1u8; 16]), Ok(()));
    assert_eq!(ext.kitties.kitties_owned(1), vec![[3u8; 16], [2u8; 16]]);
    assert_eq!(ext.kitties.kitties_owned(2), vec![[1u8; 16]]);
}

#[test]
fn genesis_stops_at_duplicate() {
    let mut kitties = Pallet::new(5);
    let genesis = GenesisConfig { kitties: vec![(1, [1u8; 16], Gender::Male), (2, [1u8; 16], Gender::Male)] };
    assert_eq!(genesis.build(&mut kitties), Err(Error::DuplicateKitty));
    assert_eq!(GenesisConfig::default().kitties.len(), 0);
}

#[test]
fn derive_picks_bytes_by_selector_parity() {
    let p1 = [0x10u8; 16];
    let p2 = [0x20u8; 16];
    let mut selector = [0u8; 16];
    for (i, b) in selector.iter_mut().enumerate() {
        *b = i as u8;
    }
    let child = derive_dna(&p1, &p2, &selector);
    for i in 0..16 {
        assert_eq!(child[i], if i % 2 == 0 { 0x10 } else { 0x20 });
    }
    assert_eq!(derive_dna(&p1, &p2, &selector), child);
}

#[test]
fn payload_is_random_index_and_height_little_endian() {
    let random = [9u8; 32];
    let payload = encode_payload(&random, 0x01020304, 0x0a0b0c0d0e0f1011);
    let mut expected = vec![9u8; 32];
    expected.extend_from_slice(&[4, 3, 2, 1]);
    expected.extend_from_slice(&[0x11, 0x10, 0x0f, 0x0e, 0x0d, 0x0c, 0x0b, 0x0a]);
    assert_eq!(payload, expected);
}

#[test]
fn generated_dna_is_hash_of_payload() {
    let random = [0u8; 32];
    let (dna, gender) = gen_dna(&random, 3, 5);
    let payload = encode_payload(&random, 3, 5);
    assert_eq!(dna, sp_io::hashing::blake2_128(&payload));
    assert_ne!(&dna[..], &payload[..16]);
    assert_eq!(gender, if dna[0] % 2 == 0 { Gender::Male } else { Gender::Female });
    assert_ne!(gen_dna(&random, 3, 5).0, gen_dna(&random, 3, 6).0);
}

#[test]
fn balances_transfer_rules() {
    let mut balances = Balances::new(1);
    balances.set_balance(1, 10);
    assert_eq!(balances.transfer_keep_alive(1, 2, 10), Err(BalanceError::InsufficientBalance));
    assert_eq!(balances.transfer_keep_alive(1, 2, 9), Ok(()));
    assert_eq!((balances.free_balance(1), balances.free_balance(2)), (1, 9));
    balances.set_balance(3, u64::MAX);
    balances.set_balance(4, 5);
    assert_eq!(balances.transfer_keep_alive(4, 3, 2), Err(BalanceError::Overflow));
    assert_eq!((balances.free_balance(3), balances.free_balance(4)), (u64::MAX, 5));
}
