use std::collections::HashMap;

use pallets::kitty::Kitty;
use pallets::kitty_market::{
    Balance, Currency, CurrencyHistory, Error, Event, KittyIndex, Pallet,
};
use pallets::runtime::{AccountId, DispatchError, Origin};

/// The deposit each kitty costs in these tests.
const MONEY_FOR_CREATE_KITTY: Balance = 100_000_000_000;
const EXISTENTIAL_DEPOSIT: Balance = 1;

/// A small ledger of free and reserved balances, standing in for the
/// runtime's balances pallet.
struct Ledger {
    free: HashMap<AccountId, Balance>,
    reserved: HashMap<AccountId, Balance>,
}

impl Ledger {
    /// Account 1 is rich, account 2 can afford two kitties but not three,
    /// account 7 has nothing.
    fn genesis() -> Self {
        let mut free = HashMap::new();
        free.insert(1, 1_000_000_000_000_000_000_000_000_000_000);
        free.insert(2, 250_000_000_000);
        free.insert(3, 250_000_000_000);
        Ledger { free, reserved: HashMap::new() }
    }

    fn free_of(&self, who: AccountId) -> Balance {
        *self.free.get(&who).unwrap_or(&0)
    }

    fn reserved_of(&self, who: AccountId) -> Balance {
        *self.reserved.get(&who).unwrap_or(&0)
    }
}

impl Currency for Ledger {
    // A record for the proofs only: compiled code never reads it.
    fn history(&self) -> CurrencyHistory {
        unreachable!()
    }

    fn reserve(&mut self, who: AccountId, value: Balance) -> Result<(), ()> {
        let free = self.free_of(who);
        if free < value {
            return Err(());
        }
        self.free.insert(who, free - value);
        let reserved = self.reserved_of(who);
        self.reserved.insert(who, reserved + value);
        Ok(())
    }

    fn repatriate_reserved(
        &mut self,
        slashed: AccountId,
        beneficiary: AccountId,
        value: Balance,
    ) -> Result<Balance, ()> {
        if self.free_of(beneficiary) == 0 && self.reserved_of(beneficiary) == 0 {
            return Err(());
        }
        let actual = value.min(self.reserved_of(slashed));
        let from = self.reserved_of(slashed);
        self.reserved.insert(slashed, from - actual);
        let to = self.reserved_of(beneficiary);
        self.reserved.insert(beneficiary, to + actual);
        Ok(value - actual)
    }

    fn transfer(&mut self, source: AccountId, dest: AccountId, value: Balance) -> Result<(), ()> {
        let free = self.free_of(source);
        if free < value || free - value < EXISTENTIAL_DEPOSIT {
            return Err(());
        }
        self.free.insert(source, free - value);
        let to = self.free_of(dest);
        self.free.insert(dest, to + value);
        Ok(())
    }
}

const SEED: [u8; 32] = [7u8; 32];

fn new_market() -> (Pallet, Ledger) {
    (Pallet::new(MONEY_FOR_CREATE_KITTY), Ledger::genesis())
}

fn create(p: &mut Pallet, l: &mut Ledger, who: AccountId) -> Result<(), DispatchError<Error>> {
    p.create(Origin::Signed(who), &SEED, Some(0), l)
}

/// Everything a failed call must leave untouched.
fn snapshot(p: &Pallet) -> (KittyIndex, Vec<Option<Kitty>>, Vec<Option<AccountId>>, Vec<Option<Balance>>, Vec<Option<Vec<KittyIndex>>>, usize) {
    let ids: Vec<KittyIndex> = (0..8).collect();
    (
        p.next_kitty_id(),
        ids.iter().map(|i| p.kitties(*i)).collect(),
        ids.iter().map(|i| p.kitty_owner(*i)).collect(),
        ids.iter().map(|i| p.on_sale(*i)).collect(),
        (0..8u64).map(|a| p.all_kitties(a)).collect(),
        p.events().len(),
    )
}

fn has_event(p: &Pallet, e: &Event) -> bool {
    p.events().iter().any(|x| x == e)
}

#[test]
fn create_works() {
    let (mut p, mut l) = new_market();
    assert_eq!(create(&mut p, &mut l, 1), Ok(()));
    let kitty_who = p.kitty_owner(0);
    assert_eq!(kitty_who, Some(1));
    let next_kitty_count = p.next_kitty_id();
    assert_eq!(next_kitty_count, 1);
    let kitty = p.kitties(0).unwrap();
    let expected_event = Event::KittyCreated(1, 0, kitty);
    assert_eq!(p.events()[0], expected_event);
}

#[test]
fn create_no_enough_balance() {
    let (mut p, mut l) = new_market();
    let before = snapshot(&p);
    assert_eq!(
        create(&mut p, &mut l, 7),
        Err(DispatchError::Module(Error::NoEnoughBalance))
    );
    assert_eq!(snapshot(&p), before);
}

#[test]
fn bread_works() {
    let (mut p, mut l) = new_market();
    assert_eq!(create(&mut p, &mut l, 1), Ok(()));
    assert_eq!(create(&mut p, &mut l, 1), Ok(()));
    let kitty_id_1: KittyIndex = 0u32;
    let kitty_id_2: KittyIndex = 1u32;
    let kitty_id_3: KittyIndex = 2u32;
    assert_eq!(
        p.bread(Origin::Signed(1), kitty_id_1, kitty_id_2, &SEED, Some(0), &mut l),
        Ok(())
    );
    let kitty = p.kitties(kitty_id_3).unwrap();
    let expected_event = Event::KittyBread(1, kitty_id_3, kitty);
    let expected_create_event = Event::KittyCreated(1, kitty_id_3, kitty);
    assert!(has_event(&p, &expected_event));
    assert!(has_event(&p, &expected_create_event));
    let kitty_who = p.kitty_owner(kitty_id_3);
    assert_eq!(kitty_who, Some(1));
    let next_kitty_count = p.next_kitty_id();
    assert_eq!(next_kitty_count, 3u32);
}

#[test]
fn bread_invalid_kitty_id() {
    let (mut p, mut l) = new_market();
    assert_eq!(create(&mut p, &mut l, 1), Ok(()));
    assert_eq!(create(&mut p, &mut l, 1), Ok(()));
    let kitty_id_1: KittyIndex = 0u32;
    let kitty_id_2: KittyIndex = 3u32;
    let before = snapshot(&p);
    assert_eq!(
        p.bread(Origin::Signed(1), kitty_id_1, kitty_id_2, &SEED, Some(0), &mut l),
        Err(DispatchError::Module(Error::InvalidKittyId))
    );
    assert_eq!(snapshot(&p), before);
}

#[test]
fn bread_no_enough_balance() {
    let (mut p, mut l) = new_market();
    assert_eq!(create(&mut p, &mut l, 2), Ok(()));
    assert_eq!(create(&mut p, &mut l, 2), Ok(()));
    let kitty_id_1: KittyIndex = 0u32;
    let kitty_id_2: KittyIndex = 1u32;
    let before = snapshot(&p);
    assert_eq!(
        p.bread(Origin::Signed(2), kitty_id_1, kitty_id_2, &SEED, Some(0), &mut l),
        Err(DispatchError::Module(Error::NoEnoughBalance))
    );
    assert_eq!(snapshot(&p), before);
}

#[test]
fn bread_not_owner() {
    let (mut p, mut l) = new_market();
    assert_eq!(create(&mut p, &mut l, 1), Ok(()));
    assert_eq!(create(&mut p, &mut l, 1), Ok(()));
    let kitty_id_1: KittyIndex = 0u32;
    let kitty_id_2: KittyIndex = 1u32;
    let before = snapshot(&p);
    assert_eq!(
        p.bread(Origin::Signed(2), kitty_id_1, kitty_id_2, &SEED, Some(0), &mut l),
        Err(DispatchError::Module(Error::NotOwner))
    );
    assert_eq!(snapshot(&p), before);
}

#[test]
fn bread_same_kitty_id() {
    let (mut p, mut l) = new_market();
    assert_eq!(create(&mut p, &mut l, 1), Ok(()));
    let kitty_id_1: KittyIndex = 0u32;
    let before = snapshot(&p);
    assert_eq!(
        p.bread(Origin::Signed(1), kitty_id_1, kitty_id_1, &SEED, Some(0), &mut l),
        Err(DispatchError::Module(Error::SameKittyId))
    );
    assert_eq!(snapshot(&p), before);
}

#[test]
fn transfer_works() {
    let (mut p, mut l) = new_market();
    assert_eq!(create(&mut p, &mut l, 1), Ok(()));
    let kitty_id_1: KittyIndex = 0u32;
    assert_eq!(p.transfer(Origin::Signed(1), kitty_id_1, 2, &mut l), Ok(()));
    let kitty_who = p.kitty_owner(kitty_id_1);
    assert_eq!(kitty_who, Some(2));
    let next_kitty_count = p.next_kitty_id();
    assert_eq!(next_kitty_count, 1u32);
    let expected_event = Event::KittyTransfered(1, 2, 0);
    assert!(has_event(&p, &expected_event));
}

#[test]
fn transfer_invalid_kitty_id() {
    let (mut p, mut l) = new_market();
    assert_eq!(create(&mut p, &mut l, 1), Ok(()));
    let kitty_id_1: KittyIndex = 1u32;
    let before = snapshot(&p);
    assert_eq!(
        p.transfer(Origin::Signed(1), kitty_id_1, 2, &mut l),
        Err(DispatchError::Module(Error::InvalidKittyId))
    );
    assert_eq!(snapshot(&p), before);
}

#[test]
fn transfer_not_owner() {
    let (mut p, mut l) = new_market();
    assert_eq!(create(&mut p, &mut l, 1), Ok(()));
    let kitty_id_1: KittyIndex = 0u32;
    let before = snapshot(&p);
    assert_eq!(
        p.transfer(Origin::Signed(2), kitty_id_1, 3, &mut l),
        Err(DispatchError::Module(Error::NotOwner))
    );
    assert_eq!(snapshot(&p), before);
}

#[test]
fn sell_works() {
    let (mut p, mut l) = new_market();
    assert_eq!(create(&mut p, &mut l, 1), Ok(()));
    let kitty_id_1: KittyIndex = 0u32;
    assert_eq!(p.sell(Origin::Signed(1), kitty_id_1, Some(200000000000000000)), Ok(()));
    let price = p.on_sale(kitty_id_1).unwrap();
    assert_eq!(price, 200000000000000000);
    let expected_event = Event::OnSaleEvent(1, 0, Some(price));
    assert_eq!(p.events()[1], expected_event);
}

#[test]
fn sell_not_owner() {
    let (mut p, mut l) = new_market();
    assert_eq!(create(&mut p, &mut l, 1), Ok(()));
    let kitty_id_1: KittyIndex = 0u32;
    let before = snapshot(&p);
    assert_eq!(
        p.sell(Origin::Signed(2), kitty_id_1, Some(200000000000000000)),
        Err(DispatchError::Module(Error::NotOwner))
    );
    assert_eq!(snapshot(&p), before);
}

#[test]
fn buy_works() {
    let (mut p, mut l) = new_market();
    let kitty_id_1: KittyIndex = 0u32;
    assert_eq!(create(&mut p, &mut l, 1), Ok(()));
    assert_eq!(p.sell(Origin::Signed(1), kitty_id_1, Some(200000000000)), Ok(()));
    assert_eq!(p.buy(Origin::Signed(2), kitty_id_1, &mut l), Ok(()));
    let kitty_who = p.kitty_owner(0);
    assert_eq!(kitty_who, Some(2));
    let next_kitty_count = p.next_kitty_id();
    assert_eq!(next_kitty_count, 1);
    let expected_event = Event::SoldEvent(1, 2, kitty_id_1, 200000000000u128);
    assert!(has_event(&p, &expected_event));
}

#[test]
fn buy_no_enough_balance() {
    let (mut p, mut l) = new_market();
    let kitty_id_1: KittyIndex = 0u32;
    assert_eq!(create(&mut p, &mut l, 1), Ok(()));
    assert_eq!(
        p.sell(Origin::Signed(1), kitty_id_1, Some(20000000000000000000000000)),
        Ok(())
    );
    let before = snapshot(&p);
    assert_eq!(
        p.buy(Origin::Signed(2), kitty_id_1, &mut l),
        Err(DispatchError::Module(Error::NoEnoughBalance))
    );
    assert_eq!(snapshot(&p), before);
}

#[test]
fn buy_not_for_sale() {
    let (mut p, mut l) = new_market();
    let kitty_id_1: KittyIndex = 0u32;
    assert_eq!(create(&mut p, &mut l, 1), Ok(()));
    let before = snapshot(&p);
    assert_eq!(
        p.buy(Origin::Signed(2), kitty_id_1, &mut l),
        Err(DispatchError::Module(Error::NotForSale))
    );
    assert_eq!(snapshot(&p), before);
}

#[test]
fn market_unsigned_calls_are_bad_origin() {
    let (mut p, mut l) = new_market();
    assert_eq!(
        p.create(Origin::Root, &SEED, Some(0), &mut l),
        Err(DispatchError::BadOrigin)
    );
    assert_eq!(p.sell(Origin::Unsigned, 0, Some(1)), Err(DispatchError::BadOrigin));
    assert_eq!(p.buy(Origin::Root, 0, &mut l), Err(DispatchError::BadOrigin));
    assert_eq!(p.next_kitty_id(), 0);
    assert!(p.events().is_empty());
}

#[test]
fn market_lists_follow_owners() {
    let (mut p, mut l) = new_market();
    assert_eq!(create(&mut p, &mut l, 1), Ok(()));
    assert_eq!(create(&mut p, &mut l, 1), Ok(()));
    assert_eq!(create(&mut p, &mut l, 1), Ok(()));
    assert_eq!(p.all_kitties(1), Some(vec![0, 1, 2]));
    assert_eq!(p.transfer(Origin::Signed(1), 1, 2, &mut l), Ok(()));
    assert_eq!(p.all_kitties(1), Some(vec![0, 2]));
    assert_eq!(p.all_kitties(2), Some(vec![1]));
    // Handing a kitty to oneself moves it to the end of one's own list.
    assert_eq!(p.transfer(Origin::Signed(1), 0, 1, &mut l), Ok(()));
    assert_eq!(p.all_kitties(1), Some(vec![2, 0]));
    assert_eq!(p.sell(Origin::Signed(2), 1, Some(1000)), Ok(()));
    assert_eq!(p.buy(Origin::Signed(3), 1, &mut l), Ok(()));
    assert_eq!(p.all_kitties(2), Some(vec![]));
    assert_eq!(p.all_kitties(3), Some(vec![1]));
    assert_eq!(p.on_sale(1), None);
    assert_eq!(p.kitty_owner(1), Some(3));
    // The seller was paid the price, the deposit moved with the kitty.
    assert_eq!(l.free_of(2), 250_000_000_000 + 1000);
    assert_eq!(l.reserved_of(2), MONEY_FOR_CREATE_KITTY);
}

#[test]
fn market_offer_survives_a_transfer_and_can_be_withdrawn() {
    let (mut p, mut l) = new_market();
    assert_eq!(create(&mut p, &mut l, 1), Ok(()));
    assert_eq!(p.sell(Origin::Signed(1), 0, Some(50)), Ok(()));
    assert_eq!(p.transfer(Origin::Signed(1), 0, 2, &mut l), Ok(()));
    // The offer stays on the kitty; a buyer now pays its new owner.
    assert_eq!(p.on_sale(0), Some(50));
    assert_eq!(p.buy(Origin::Signed(3), 0, &mut l), Ok(()));
    assert!(has_event(&p, &Event::SoldEvent(2, 3, 0, 50)));
    assert_eq!(p.sell(Origin::Signed(3), 0, Some(70)), Ok(()));
    assert_eq!(p.sell(Origin::Signed(3), 0, None), Ok(()));
    assert_eq!(p.on_sale(0), None);
    assert_eq!(
        p.buy(Origin::Signed(1), 0, &mut l),
        Err(DispatchError::Module(Error::NotForSale))
    );
}

#[test]
fn market_bred_dna_mixes_parents() {
    let (mut p, mut l) = new_market();
    assert_eq!(create(&mut p, &mut l, 1), Ok(()));
    assert_eq!(p.create(Origin::Signed(1), &[9u8; 32], Some(3), &mut l), Ok(()));
    let k1 = p.kitties(0).unwrap();
    let k2 = p.kitties(1).unwrap();
    assert_eq!(p.bread(Origin::Signed(1), 0, 1, &[5u8; 32], Some(1), &mut l), Ok(()));
    let child = p.kitties(2).unwrap();
    let selector = pallets::kitty::random_value(&[5u8; 32], 1, Some(1));
    for i in 0..16 {
        assert_eq!(child.0[i], (k1.0[i] & selector[i]) | (k2.0[i] & !selector[i]));
    }
    assert_eq!(p.events()[2], Event::KittyBread(1, 2, child));
    assert_eq!(p.events()[3], Event::KittyCreated(1, 2, child));
}

#[test]
fn market_getter_default_value() {
    assert_eq!(pallets::kitty_market::GetDefaultValue(), 0);
    let (p, _) = new_market();
    assert_eq!(p.money_for_create_kitty(), MONEY_FOR_CREATE_KITTY);
    assert_eq!(p.all_kitties(1), None);
}

#[test]
fn market_transfer_there_and_back() {
    let (mut p, mut l) = new_market();
    assert_eq!(create(&mut p, &mut l, 1), Ok(()));
    let k = p.kitties(0);
    assert_eq!(p.transfer(Origin::Signed(1), 0, 2, &mut l), Ok(()));
    assert_eq!(p.transfer(Origin::Signed(2), 0, 1, &mut l), Ok(()));
    assert_eq!(p.kitty_owner(0), Some(1));
    assert_eq!(p.kitties(0), k);
    assert_eq!(p.next_kitty_id(), 1);
    assert_eq!(p.all_kitties(1), Some(vec![0]));
    assert_eq!(p.all_kitties(2), Some(vec![]));
    assert_eq!(l.reserved_of(1), MONEY_FOR_CREATE_KITTY);
}

#[test]
fn market_sold_kitty_stays_off_sale() {
    let (mut p, mut l) = new_market();
    assert_eq!(create(&mut p, &mut l, 1), Ok(()));
    assert_eq!(create(&mut p, &mut l, 1), Ok(()));
    assert_eq!(p.sell(Origin::Signed(1), 0, Some(10)), Ok(()));
    assert_eq!(p.buy(Origin::Signed(2), 0, &mut l), Ok(()));
    // Other kitties are offered, bred and handed on; kitty 0 stays off sale.
    assert_eq!(p.sell(Origin::Signed(1), 1, Some(5)), Ok(()));
    assert_eq!(p.transfer(Origin::Signed(2), 0, 3, &mut l), Ok(()));
    assert_eq!(create(&mut p, &mut l, 3), Ok(()));
    assert_eq!(p.on_sale(0), None);
    assert_eq!(
        p.buy(Origin::Signed(1), 0, &mut l),
        Err(DispatchError::Module(Error::NotForSale))
    );
}
