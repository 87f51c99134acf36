use kitties::{
    combine, random_value, AccountData, Error, Event, Kitty, Module, Record, Runtime,
};

const RESERVE: u64 = 5_000;

fn funded() -> (Module, Runtime) {
    let mut rt = Runtime::new(RESERVE);
    rt.set_balance(1, 20_000);
    rt.set_balance(2, 20_000);
    rt.set_balance(3, 4_999);
    (Module::new(), rt)
}

fn sorted(mut ids: Vec<u32>) -> Vec<u32> {
    ids.sort();
    ids
}

#[test]
fn create_then_transfer_then_refused_retransfer() {
    let (mut kitties, mut rt) = funded();

    assert_eq!(kitties.create(&mut rt, 1), Ok(0));
    assert_eq!(kitties.kitty_owner(0), Some(1));
    assert_eq!(kitties.owned_kitties(1), vec![0]);

    assert_eq!(kitties.transfer(&mut rt, 1, 2, 0), Ok(()));
    assert_eq!(kitties.kitty_owner(0), Some(2));
    assert_eq!(kitties.owned_kitties(1), Vec::<u32>::new());
    assert_eq!(kitties.owned_kitties(2), vec![0]);

    let (kitties_before, rt_before) = (kitties.clone(), rt.clone());
    assert_eq!(kitties.transfer(&mut rt, 1, 2, 0), Err(Error::NotKittyOwner));
    assert_eq!(kitties, kitties_before);
    assert_eq!(rt, rt_before);
}

#[test]
fn breed_selects_bits_by_the_selector_of_that_call() {
    let (mut kitties, mut rt) = funded();
    rt.set_random_seed([7u8; 32]);
    rt.set_extrinsic_index(Some(0));
    assert_eq!(kitties.create(&mut rt, 1), Ok(0));
    rt.set_extrinsic_index(Some(1));
    assert_eq!(kitties.create(&mut rt, 1), Ok(1));

    rt.set_extrinsic_index(Some(2));
    let selector = random_value(&rt, 1);
    assert_eq!(kitties.breed(&mut rt, 1, 0, 1), Ok(2));

    let genome0 = kitties.kitties(0).unwrap().0;
    let genome1 = kitties.kitties(1).unwrap().0;
    let genome2 = kitties.kitties(2).unwrap().0;
    assert_ne!(genome0, genome1);
    for i in 0..16 {
        assert_eq!(genome2[i], (selector[i] & genome0[i]) | (!selector[i] & genome1[i]));
    }
    assert_eq!(genome2, combine(&genome0, &genome1, &selector));
    assert_eq!(kitties.kitties_count(), 3);
    assert_eq!(kitties.kitty_owner(2), Some(1));
    assert_eq!(sorted(kitties.owned_kitties(1)), vec![0, 1, 2]);
    assert_eq!(rt.events().last(), Some(&Record::Kitties(Event::Created(1, 2))));
}

#[test]
fn breed_charges_no_collateral_and_ignores_who_owns_the_parents() {
    let (mut kitties, mut rt) = funded();
    assert_eq!(kitties.create(&mut rt, 1), Ok(0));
    assert_eq!(kitties.create(&mut rt, 2), Ok(1));
    let before = rt.account(3);
    assert_eq!(kitties.breed(&mut rt, 3, 1, 0), Ok(2));
    assert_eq!(rt.account(3), before);
    assert_eq!(kitties.kitty_owner(2), Some(3));
    assert_eq!(kitties.owned_kitties(3), vec![2]);
}

#[test]
fn counter_at_maximum_refuses_create_and_breed() {
    let mut rt = Runtime::new(RESERVE);
    rt.set_balance(1, 20_000);

    let mut full = Module::with_count(u32::MAX);
    let (full_before, rt_before) = (full.clone(), rt.clone());
    assert_eq!(full.next_kitty_id(), Err(Error::KittiesCountOverFlow));
    assert_eq!(full.create(&mut rt, 1), Err(Error::KittiesCountOverFlow));
    assert_eq!(full, full_before);
    assert_eq!(rt, rt_before);

    let mut kitties = Module::with_count(u32::MAX - 2);
    assert_eq!(kitties.create(&mut rt, 1), Ok(u32::MAX - 2));
    assert_eq!(kitties.create(&mut rt, 1), Ok(u32::MAX - 1));
    assert_eq!(kitties.kitties_count(), u32::MAX);
    let (kitties_before, rt_before) = (kitties.clone(), rt.clone());
    assert_eq!(
        kitties.breed(&mut rt, 1, u32::MAX - 2, u32::MAX - 1),
        Err(Error::KittiesCountOverFlow)
    );
    assert_eq!(kitties.create(&mut rt, 1), Err(Error::KittiesCountOverFlow));
    assert_eq!(kitties, kitties_before);
    assert_eq!(rt, rt_before);
}

#[test]
fn errors_of_breed_come_in_order() {
    let mut rt = Runtime::new(RESERVE);
    rt.set_balance(1, 20_000);
    let mut kitties = Module::with_count(u32::MAX - 1);
    assert_eq!(kitties.create(&mut rt, 1), Ok(u32::MAX - 1));
    // The counter is exhausted, yet a missing parent and a repeated parent are reported first.
    assert_eq!(kitties.breed(&mut rt, 1, u32::MAX - 1, 5), Err(Error::InvalidKittyId));
    assert_eq!(kitties.breed(&mut rt, 1, 5, 5), Err(Error::InvalidKittyId));
    assert_eq!(
        kitties.breed(&mut rt, 1, u32::MAX - 1, u32::MAX - 1),
        Err(Error::RrquireDifferentParent)
    );
}

#[test]
fn create_hands_out_rising_identifiers_and_reserves_one_unit_each() {
    let (mut kitties, mut rt) = funded();
    for expected in 0..4u32 {
        let before = rt.account(1);
        assert_eq!(kitties.next_kitty_id(), Ok(expected));
        assert_eq!(kitties.create(&mut rt, 1), Ok(expected));
        assert_eq!(kitties.kitties_count(), expected + 1);
        let after = rt.account(1);
        assert_eq!(after.free, before.free - RESERVE);
        assert_eq!(after.reserved, before.reserved + RESERVE);
    }
    assert_eq!(rt.account(1), AccountData { free: 0, reserved: 20_000 });
    assert_eq!(rt.account(2), AccountData { free: 20_000, reserved: 0 });
    // Nothing is left to reserve.
    let (kitties_before, rt_before) = (kitties.clone(), rt.clone());
    assert_eq!(kitties.create(&mut rt, 1), Err(Error::MoneyNotEnough));
    assert_eq!(kitties, kitties_before);
    assert_eq!(rt, rt_before);
}

#[test]
fn create_takes_its_genome_from_the_randomness_source() {
    let (mut kitties, mut rt) = funded();
    assert_eq!(kitties.create(&mut rt, 1), Ok(0));
    assert_eq!(
        kitties.kitties(0),
        Some(Kitty([94, 85, 93, 3, 146, 178, 228, 254, 65, 171, 235, 35, 69, 153, 176, 209]))
    );
    assert_eq!(
        rt.events().clone(),
        vec![Record::Reserved(1, RESERVE), Record::Kitties(Event::Created(1, 0))]
    );
}

#[test]
fn every_kitty_is_listed_under_its_owner_and_nowhere_else() {
    let (mut kitties, mut rt) = funded();
    assert_eq!(kitties.create(&mut rt, 1), Ok(0));
    assert_eq!(kitties.create(&mut rt, 2), Ok(1));
    assert_eq!(kitties.create(&mut rt, 1), Ok(2));
    assert_eq!(kitties.breed(&mut rt, 2, 0, 2), Ok(3));
    assert_eq!(kitties.transfer(&mut rt, 1, 2, 0), Ok(()));
    assert_eq!(kitties.transfer(&mut rt, 2, 1, 1), Ok(()));
    for id in 0..kitties.kitties_count() {
        let owner = kitties.kitty_owner(id).unwrap();
        for who in 0..5u64 {
            assert_eq!(kitties.owned_kitties(who).contains(&id), who == owner);
        }
    }
    assert_eq!(sorted(kitties.owned_kitties(1)), vec![1, 2]);
    assert_eq!(sorted(kitties.owned_kitties(2)), vec![0, 3]);
    assert_eq!(kitties.kitty_owner(4), None);
    assert_eq!(kitties.kitties(4), None);
}

#[test]
fn transfer_refused_by_the_ledger_changes_nothing() {
    let (mut kitties, mut rt) = funded();
    assert_eq!(kitties.create(&mut rt, 1), Ok(0));
    let (kitties_before, rt_before) = (kitties.clone(), rt.clone());
    // Account 3 has one unit less than the collateral.
    assert_eq!(kitties.transfer(&mut rt, 1, 3, 0), Err(Error::MoneyNotEnough));
    assert_eq!(kitties, kitties_before);
    assert_eq!(rt, rt_before);
    assert_eq!(kitties.kitty_owner(0), Some(1));
    assert_eq!(rt.account(1), AccountData { free: 15_000, reserved: 5_000 });
    assert_eq!(rt.account(3), AccountData { free: 4_999, reserved: 0 });
}

#[test]
fn transfer_moves_the_collateral_from_sender_to_receiver() {
    let (mut kitties, mut rt) = funded();
    assert_eq!(kitties.create(&mut rt, 1), Ok(0));
    assert_eq!(kitties.transfer(&mut rt, 1, 2, 0), Ok(()));
    assert_eq!(rt.account(1), AccountData { free: 20_000, reserved: 0 });
    assert_eq!(rt.account(2), AccountData { free: 15_000, reserved: 5_000 });
    assert_eq!(
        rt.events().clone(),
        vec![
            Record::Reserved(1, RESERVE),
            Record::Kitties(Event::Created(1, 0)),
            Record::Reserved(2, RESERVE),
            Record::Unreserved(1, RESERVE),
            Record::Kitties(Event::Transferred(1, 2, 0)),
        ]
    );
}

#[test]
fn transfer_to_oneself_keeps_owner_and_balances() {
    let (mut kitties, mut rt) = funded();
    assert_eq!(kitties.create(&mut rt, 1), Ok(0));
    let kitties_before = kitties.clone();
    let account_before = rt.account(1);
    assert_eq!(kitties.transfer(&mut rt, 1, 1, 0), Ok(()));
    assert_eq!(kitties, kitties_before);
    assert_eq!(rt.account(1), account_before);
    assert_eq!(kitties.owned_kitties(1), vec![0]);
    assert_eq!(rt.events().last(), Some(&Record::Kitties(Event::Transferred(1, 1, 0))));
}

#[test]
fn transfer_releases_no_more_than_the_sender_has_in_reserve() {
    let (mut kitties, mut rt) = funded();
    // A bred kitty carries no collateral, so its owner has nothing to be released.
    assert_eq!(kitties.create(&mut rt, 1), Ok(0));
    assert_eq!(kitties.create(&mut rt, 1), Ok(1));
    assert_eq!(kitties.breed(&mut rt, 3, 0, 1), Ok(2));
    assert_eq!(kitties.transfer(&mut rt, 3, 2, 2), Ok(()));
    assert_eq!(rt.account(3), AccountData { free: 4_999, reserved: 0 });
    assert_eq!(rt.account(2), AccountData { free: 15_000, reserved: 5_000 });
    assert_eq!(rt.events().last(), Some(&Record::Kitties(Event::Transferred(3, 2, 2))));
    assert_eq!(rt.events()[rt.events().len() - 2], Record::Unreserved(3, 0));
}
