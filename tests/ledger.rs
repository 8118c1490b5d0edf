use std::collections::HashMap;

use kitties::{BlockInfo, Config, Error, Event, Kitty, Pallet, Payment, MAX_OWNED};

const ALICE: u64 = 1;
const BOB: u64 = 2;
const CAROL: u64 = 3;

/// Balances that keep every payer at or above a minimum of 1.
struct Balances {
    free: HashMap<u64, u128>,
}

impl Balances {
    fn with(accounts: &[(u64, u128)]) -> Balances {
        Balances { free: accounts.iter().cloned().collect() }
    }

    fn of(&self, who: u64) -> u128 {
        self.free.get(&who).cloned().unwrap_or(0)
    }
}

impl Config for Balances {
    fn transfer_balance(&mut self, from: u64, to: u64, amount: u128) -> Result<(), Error> {
        let have = self.of(from);
        if have < amount || have - amount < 1 {
            return Err(Error::InsufficientBalance);
        }
        self.free.insert(from, have - amount);
        let to_have = self.of(to);
        self.free.insert(to, to_have + amount);
        Ok(())
    }
}

fn dna(n: u32) -> [u8; 32] {
    let mut d = [0u8; 32];
    d[..4].copy_from_slice(&n.to_le_bytes());
    d[31] = 7;
    d
}

fn block(n: u32) -> BlockInfo {
    BlockInfo { parent_hash: [9u8; 32], block_number: n, extrinsic_index: Some(2) }
}

fn owned_sorted(p: &Pallet, who: u64) -> Vec<[u8; 32]> {
    let mut v = p.kitties_owned(who);
    v.sort();
    v
}

#[test]
fn example_scenario() {
    let mut p = Pallet::new();
    let mut money = Balances::with(&[(ALICE, 10), (BOB, 200)]);
    assert_eq!(p.create_kitty(ALICE, &block(1)), Ok(()));
    assert_eq!(p.count_for_kitties(), 1);
    let a = p.kitties_owned(ALICE)[0];
    assert_eq!(p.kitty(&a), Some(Kitty { dna: a, owner: ALICE, price: None }));
    assert_eq!(p.set_price(ALICE, a, Some(50)), Ok(()));
    assert_eq!(p.kitty(&a).unwrap().price, Some(50));
    assert_eq!(p.buy_kitty(&mut money, BOB, a, 100), Ok(()));
    assert_eq!(money.of(BOB), 150);
    assert_eq!(money.of(ALICE), 60);
    assert_eq!(p.kitty(&a), Some(Kitty { dna: a, owner: BOB, price: None }));
    assert_eq!(p.count_for_kitties(), 1);
    assert_eq!(p.kitties_owned(ALICE), Vec::<[u8; 32]>::new());
    assert_eq!(p.kitties_owned(BOB), vec![a]);
    let events_before = p.events().clone();
    assert_eq!(p.transfer(BOB, BOB, a), Err(Error::TransferToSelf));
    assert_eq!(p.kitty(&a), Some(Kitty { dna: a, owner: BOB, price: None }));
    assert_eq!(p.kitties_owned(BOB), vec![a]);
    assert_eq!(p.events(), &events_before);
    assert_eq!(
        p.events(),
        &vec![
            Event::Created { owner: ALICE },
            Event::PriceSet { owner: ALICE, kitty_id: a, new_price: Some(50) },
            Event::Transferred { from: ALICE, to: BOB, kitty_id: a },
            Event::Sold { buyer: BOB, kitty_id: a, price: 50 },
        ]
    );
}

#[test]
fn minting_n_counts_n_distinct() {
    let mut p = Pallet::new();
    for i in 0..5u32 {
        assert_eq!(p.mint(ALICE, dna(i)), Ok(()));
    }
    assert_eq!(p.count_for_kitties(), 5);
    let owned = owned_sorted(&p, ALICE);
    assert_eq!(owned.len(), 5);
    for w in owned.windows(2) {
        assert_ne!(w[0], w[1]);
    }
    for i in 0..5u32 {
        assert_eq!(p.kitty(&dna(i)).unwrap().owner, ALICE);
    }
}

#[test]
fn create_kitty_gives_distinct_fingerprints() {
    let mut p = Pallet::new();
    assert_eq!(p.create_kitty(ALICE, &block(3)), Ok(()));
    assert_eq!(p.create_kitty(ALICE, &block(3)), Ok(()));
    assert_eq!(p.count_for_kitties(), 2);
    let owned = p.kitties_owned(ALICE);
    assert_ne!(owned[0], owned[1]);
}

#[test]
fn duplicate_mint_refused() {
    let mut p = Pallet::new();
    assert_eq!(p.mint(ALICE, dna(1)), Ok(()));
    assert_eq!(p.mint(BOB, dna(1)), Err(Error::DuplicateKitty));
    assert_eq!(p.count_for_kitties(), 1);
    assert_eq!(p.kitties_owned(BOB).len(), 0);
    assert_eq!(p.kitty(&dna(1)).unwrap().owner, ALICE);
}

#[test]
fn transfer_there_and_back() {
    let mut p = Pallet::new();
    assert_eq!(p.mint(ALICE, dna(1)), Ok(()));
    assert_eq!(p.mint(ALICE, dna(2)), Ok(()));
    assert_eq!(p.mint(BOB, dna(3)), Ok(()));
    assert_eq!(p.set_price(ALICE, dna(1), Some(5)), Ok(()));
    assert_eq!(p.transfer(ALICE, BOB, dna(1)), Ok(()));
    assert_eq!(p.kitty(&dna(1)), Some(Kitty { dna: dna(1), owner: BOB, price: None }));
    assert_eq!(p.set_price(BOB, dna(1), Some(9)), Ok(()));
    assert_eq!(p.transfer(BOB, ALICE, dna(1)), Ok(()));
    assert_eq!(p.kitty(&dna(1)), Some(Kitty { dna: dna(1), owner: ALICE, price: None }));
    assert_eq!(owned_sorted(&p, ALICE), vec![dna(1), dna(2)]);
    assert_eq!(owned_sorted(&p, BOB), vec![dna(3)]);
    assert_eq!(p.count_for_kitties(), 3);
}

#[test]
fn self_transfer_changes_nothing() {
    let mut p = Pallet::new();
    assert_eq!(p.mint(ALICE, dna(1)), Ok(()));
    assert_eq!(p.set_price(ALICE, dna(1), Some(4)), Ok(()));
    assert_eq!(p.transfer(ALICE, ALICE, dna(1)), Err(Error::TransferToSelf));
    assert_eq!(p.transfer(BOB, BOB, dna(8)), Err(Error::TransferToSelf));
    assert_eq!(p.kitty(&dna(1)), Some(Kitty { dna: dna(1), owner: ALICE, price: Some(4) }));
    assert_eq!(p.kitties_owned(ALICE), vec![dna(1)]);
    assert_eq!(p.events().len(), 2);
}

#[test]
fn transfer_errors() {
    let mut p = Pallet::new();
    assert_eq!(p.mint(ALICE, dna(1)), Ok(()));
    assert_eq!(p.transfer(ALICE, BOB, dna(2)), Err(Error::NoKitty));
    assert_eq!(p.transfer(BOB, CAROL, dna(1)), Err(Error::NotOwner));
    assert_eq!(p.kitty(&dna(1)).unwrap().owner, ALICE);
}

#[test]
fn set_price_errors_and_delist() {
    let mut p = Pallet::new();
    assert_eq!(p.mint(ALICE, dna(1)), Ok(()));
    assert_eq!(p.set_price(ALICE, dna(2), Some(1)), Err(Error::NoKitty));
    assert_eq!(p.set_price(BOB, dna(1), Some(1)), Err(Error::NotOwner));
    assert_eq!(p.set_price(ALICE, dna(1), Some(3)), Ok(()));
    assert_eq!(p.set_price(ALICE, dna(1), None), Ok(()));
    assert_eq!(p.kitty(&dna(1)).unwrap().price, None);
    assert_eq!(
        p.events()[2],
        Event::PriceSet { owner: ALICE, kitty_id: dna(1), new_price: None }
    );
}

#[test]
fn buy_unlisted_not_for_sale() {
    let mut p = Pallet::new();
    let mut money = Balances::with(&[(BOB, 100)]);
    assert_eq!(p.mint(ALICE, dna(1)), Ok(()));
    assert_eq!(p.buy_kitty(&mut money, BOB, dna(1), 50), Err(Error::NotForSale));
    assert_eq!(money.of(BOB), 100);
    assert_eq!(p.kitty(&dna(1)).unwrap().owner, ALICE);
}

#[test]
fn buy_price_bounds() {
    let mut p = Pallet::new();
    let mut money = Balances::with(&[(ALICE, 5), (BOB, 100)]);
    assert_eq!(p.mint(ALICE, dna(1)), Ok(()));
    assert_eq!(p.set_price(ALICE, dna(1), Some(30)), Ok(()));
    assert_eq!(p.buy_kitty(&mut money, BOB, dna(1), 29), Err(Error::MaxPriceTooLow));
    assert_eq!(money.of(BOB), 100);
    assert_eq!(p.kitty(&dna(1)).unwrap().owner, ALICE);
    assert_eq!(p.buy_kitty(&mut money, BOB, dna(1), 30), Ok(()));
    assert_eq!(money.of(BOB), 70);
    assert_eq!(money.of(ALICE), 35);
    assert_eq!(p.kitty(&dna(1)), Some(Kitty { dna: dna(1), owner: BOB, price: None }));
}

#[test]
fn buy_other_errors() {
    let mut p = Pallet::new();
    let mut money = Balances::with(&[(ALICE, 100), (BOB, 10)]);
    assert_eq!(p.do_buy_kitty(&mut money, BOB, dna(1), 5), Err(Error::NoKitty));
    assert_eq!(p.mint(ALICE, dna(1)), Ok(()));
    assert_eq!(p.set_price(ALICE, dna(1), Some(10)), Ok(()));
    assert_eq!(p.buy_kitty(&mut money, ALICE, dna(1), 10), Err(Error::TransferToSelf));
    assert_eq!(money.of(ALICE), 100);
    assert_eq!(p.buy_kitty(&mut money, BOB, dna(1), 10), Err(Error::InsufficientBalance));
    assert_eq!(money.of(BOB), 10);
    assert_eq!(money.of(ALICE), 100);
    assert_eq!(p.kitty(&dna(1)), Some(Kitty { dna: dna(1), owner: ALICE, price: Some(10) }));
    assert_eq!(p.events().len(), 2);
}

#[test]
fn full_owner_refuses_mint_and_transfer() {
    let mut p = Pallet::new();
    for i in 0..MAX_OWNED as u32 {
        assert_eq!(p.mint(ALICE, dna(i)), Ok(()));
    }
    assert_eq!(p.kitties_owned(ALICE).len(), 100);
    assert_eq!(p.mint(ALICE, dna(1000)), Err(Error::TooManyOwned));
    assert_eq!(p.kitties_owned(ALICE).len(), 100);
    assert_eq!(p.count_for_kitties(), 100);
    assert_eq!(p.kitty(&dna(1000)), None);
    assert_eq!(p.mint(BOB, dna(1000)), Ok(()));
    assert_eq!(p.transfer(BOB, ALICE, dna(1000)), Err(Error::TooManyOwned));
    assert_eq!(p.kitties_owned(ALICE).len(), 100);
    assert_eq!(p.kitty(&dna(1000)).unwrap().owner, BOB);
    let mut money = Balances::with(&[(ALICE, 100)]);
    assert_eq!(p.set_price(BOB, dna(1000), Some(1)), Ok(()));
    assert_eq!(p.buy_kitty(&mut money, ALICE, dna(1000), 1), Err(Error::TooManyOwned));
    assert_eq!(money.of(ALICE), 100);
}

#[test]
fn fingerprint_is_blake2_of_payload() {
    let info = BlockInfo { parent_hash: [3u8; 32], block_number: 0x01020304, extrinsic_index: Some(5) };
    let mut payload = vec![3u8; 32];
    payload.extend_from_slice(&[4, 3, 2, 1]);
    payload.extend_from_slice(&[1, 5, 0, 0, 0]);
    payload.extend_from_slice(&[7, 0, 0, 0]);
    let expected = sp_crypto_hashing::blake2_256(&payload);
    assert_eq!(kitties::gen_dna_from(&info, 7), expected);
    assert_ne!(kitties::gen_dna_from(&info, 8), expected);
    let none = BlockInfo { parent_hash: [3u8; 32], block_number: 0x01020304, extrinsic_index: None };
    let mut payload2 = vec![3u8; 32];
    payload2.extend_from_slice(&[4, 3, 2, 1, 0, 7, 0, 0, 0]);
    assert_eq!(kitties::gen_dna_from(&none, 7), sp_crypto_hashing::blake2_256(&payload2));
}

#[test]
fn empty_input_digest() {
    let p = Pallet::new();
    let info = BlockInfo { parent_hash: [0u8; 32], block_number: 0, extrinsic_index: None };
    let d = p.gen_dna(&info);
    assert_eq!(d, kitties::gen_dna_from(&info, 0));
    assert_ne!(d, [0u8; 32]);
}

#[test]
fn new_ledger_is_empty() {
    let p = Pallet::new();
    assert_eq!(p.count_for_kitties(), 0);
    assert_eq!(p.kitties_owned(ALICE).len(), 0);
    assert_eq!(p.events().len(), 0);
    assert_eq!(p.kitty(&dna(0)), None);
}

#[test]
fn dna_eq_compares_bytes() {
    assert!(kitties::dna_eq(&dna(4), &dna(4)));
    assert!(!kitties::dna_eq(&dna(4), &dna(5)));
}

#[test]
fn prepare_buy_asks_listed_price() {
    let mut p = Pallet::new();
    assert_eq!(p.mint(ALICE, dna(1)), Ok(()));
    assert_eq!(p.prepare_buy(BOB, dna(1), 100), Err(Error::NotForSale));
    assert_eq!(p.set_price(ALICE, dna(1), Some(40)), Ok(()));
    assert_eq!(p.prepare_buy(BOB, dna(1), 39), Err(Error::MaxPriceTooLow));
    assert_eq!(
        p.prepare_buy(BOB, dna(1), 100),
        Ok(Payment { from: BOB, to: ALICE, amount: 40 })
    );
    assert_eq!(p.prepare_buy(BOB, dna(2), 100), Err(Error::NoKitty));
    assert_eq!(p.prepare_buy(ALICE, dna(1), 100), Err(Error::TransferToSelf));
}

#[test]
fn finish_buy_follows_the_payment() {
    let mut p = Pallet::new();
    assert_eq!(p.mint(ALICE, dna(1)), Ok(()));
    assert_eq!(p.set_price(ALICE, dna(1), Some(20)), Ok(()));
    let pay = p.prepare_buy(BOB, dna(1), 25).unwrap();
    assert_eq!(pay, Payment { from: BOB, to: ALICE, amount: 20 });
    assert_eq!(
        p.finish_buy(Err(Error::InsufficientBalance), BOB, dna(1), pay),
        Err(Error::InsufficientBalance)
    );
    assert_eq!(p.kitty(&dna(1)), Some(Kitty { dna: dna(1), owner: ALICE, price: Some(20) }));
    assert_eq!(p.kitties_owned(BOB).len(), 0);
    assert_eq!(p.events().len(), 2);
    assert_eq!(p.finish_buy(Ok(()), BOB, dna(1), pay), Ok(()));
    assert_eq!(p.kitty(&dna(1)), Some(Kitty { dna: dna(1), owner: BOB, price: None }));
    assert_eq!(p.kitties_owned(BOB), vec![dna(1)]);
    assert_eq!(p.kitties_owned(ALICE).len(), 0);
    assert_eq!(p.count_for_kitties(), 1);
    assert_eq!(
        p.events()[2..].to_vec(),
        vec![
            Event::Transferred { from: ALICE, to: BOB, kitty_id: dna(1) },
            Event::Sold { buyer: BOB, kitty_id: dna(1), price: 20 },
        ]
    );
}
