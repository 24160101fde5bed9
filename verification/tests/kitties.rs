use ledger_kernel::kitties::{
    breed_genome, Config, Error, Event, GetDefaultValue, Kitty, Pallet,
};
use ledger_kernel::ledger::AccountData;
use ledger_kernel::system::{ErrorKind, Origin};

/* balance: 100_000_000_000 */
const ACCOUNT_ID_1: u64 = 1;
/* balance: 100_000_000_000 */
const ACCOUNT_ID_2: u64 = 2;
/* balance: 9_999 */
const ACCOUNT_ID_3: u64 = 3;
/* balance: 20_000 */
const ACCOUNT_ID_4: u64 = 4;

const RESERVED: u128 = 10_000;
const RICH: u128 = 100_000_000_000;
const SEED: [u8; 32] = [7; 32];

type KittiesMod = Pallet<3>;

fn new_test_ext() -> KittiesMod {
    let mut kitties = Pallet::new(Config { reserved: RESERVED, existential_deposit: 1 });
    assert_eq!(kitties.endow(ACCOUNT_ID_1, RICH), Ok(()));
    assert_eq!(kitties.endow(ACCOUNT_ID_2, RICH), Ok(()));
    assert_eq!(kitties.endow(ACCOUNT_ID_3, 9_999), Ok(()));
    assert_eq!(kitties.endow(ACCOUNT_ID_4, 20_000), Ok(()));
    kitties
}

/// Everything a test can see of the registry for the given accounts and kitties.
type Snapshot =
    (u32, Vec<Option<Kitty>>, Vec<Option<u64>>, Vec<Option<u128>>, Vec<Vec<u32>>, Vec<AccountData>);

fn snapshot(kitties: &KittiesMod) -> Snapshot {
    let ids = 0..6u32;
    let accounts = 0..6u64;
    (
        kitties.kitty_count(),
        ids.clone().map(|id| kitties.kitties(id)).collect(),
        ids.clone().map(|id| kitties.kitty_owned_by(id)).collect(),
        ids.map(|id| kitties.sale_list(id)).collect(),
        accounts.clone().map(|who| kitties.owned_kitty(who)).collect(),
        accounts.map(|who| kitties.currency().account(who)).collect(),
    )
}

/****************************************CREATE***************************************************/
#[test]
fn create_works() {
    let mut kitties = new_test_ext();
    let event = kitties.create(Origin::signed(ACCOUNT_ID_1), &SEED, None);
    assert!(event.is_ok());
    assert_eq!(kitties.kitty_count(), 1);
    assert_eq!(kitties.kitty_owned_by(0), Some(ACCOUNT_ID_1));

    assert_eq!(event, Ok(Event::KittyCreated(ACCOUNT_ID_1, 0, kitties.kitties(0).unwrap())));
}

#[test]
fn create_failed_not_enough_balance_reserved() {
    let mut kitties = new_test_ext();
    let before = snapshot(&kitties);
    assert_eq!(
        kitties.create(Origin::signed(ACCOUNT_ID_3), &SEED, None),
        Err(Error::NotEnoughBalanceReserved)
    );
    assert_eq!(snapshot(&kitties), before);
}

/****************************************BREED***************************************************/
#[test]
fn breed_works() {
    let mut kitties = new_test_ext();
    assert!(kitties.create(Origin::signed(ACCOUNT_ID_1), &SEED, None).is_ok());
    assert!(kitties.create(Origin::signed(ACCOUNT_ID_2), &SEED, None).is_ok());
    let event = kitties.breed(Origin::signed(ACCOUNT_ID_1), 0, 1, &SEED, None);
    assert!(event.is_ok());
    assert_eq!(kitties.kitty_count(), 3);
    assert_eq!(kitties.kitty_owned_by(2), Some(ACCOUNT_ID_1));

    assert_eq!(event, Ok(Event::KittyBreed(ACCOUNT_ID_1, 2, kitties.kitties(2).unwrap())));
}

#[test]
fn breed_failed_same_kitty_id() {
    let mut kitties = new_test_ext();
    assert!(kitties.create(Origin::signed(ACCOUNT_ID_1), &SEED, None).is_ok());
    assert!(kitties.create(Origin::signed(ACCOUNT_ID_2), &SEED, None).is_ok());
    let before = snapshot(&kitties);
    assert_eq!(
        kitties.breed(Origin::signed(ACCOUNT_ID_1), 1, 1, &SEED, None),
        Err(Error::SameKittyId)
    );
    assert_eq!(snapshot(&kitties), before);
}

#[test]
fn breed_failed_invalid_kitty_id() {
    let mut kitties = new_test_ext();
    assert!(kitties.create(Origin::signed(ACCOUNT_ID_1), &SEED, None).is_ok());
    assert!(kitties.create(Origin::signed(ACCOUNT_ID_2), &SEED, None).is_ok());
    let before = snapshot(&kitties);
    assert_eq!(
        kitties.breed(Origin::signed(ACCOUNT_ID_1), 0, 2, &SEED, None),
        Err(Error::InvalidKittyId)
    );
    assert_eq!(snapshot(&kitties), before);
}

#[test]
fn breed_failed_not_enough_balance_reserved() {
    let mut kitties = new_test_ext();
    assert!(kitties.create(Origin::signed(ACCOUNT_ID_1), &SEED, None).is_ok());
    assert!(kitties.create(Origin::signed(ACCOUNT_ID_2), &SEED, None).is_ok());
    let before = snapshot(&kitties);
    assert_eq!(
        kitties.breed(Origin::signed(ACCOUNT_ID_3), 0, 1, &SEED, None),
        Err(Error::NotEnoughBalanceReserved)
    );
    assert_eq!(snapshot(&kitties), before);
}

/****************************************TRANSFER***************************************************/
#[test]
fn tests_transfer_works() {
    let mut kitties = new_test_ext();
    assert!(kitties.create(Origin::signed(ACCOUNT_ID_1), &SEED, None).is_ok());
    assert_eq!(kitties.kitty_owned_by(0), Some(ACCOUNT_ID_1));
    let event = kitties.transfer(Origin::signed(ACCOUNT_ID_1), 0, ACCOUNT_ID_2);
    assert!(event.is_ok());
    assert_eq!(kitties.kitty_owned_by(0), Some(ACCOUNT_ID_2));

    assert_eq!(event, Ok(Event::KittyTransferred(ACCOUNT_ID_1, ACCOUNT_ID_2, 0)));
}

#[test]
fn transfer_failed_not_owner() {
    let mut kitties = new_test_ext();
    assert!(kitties.create(Origin::signed(ACCOUNT_ID_1), &SEED, None).is_ok());
    let before = snapshot(&kitties);
    assert_eq!(
        kitties.transfer(Origin::signed(ACCOUNT_ID_2), 0, ACCOUNT_ID_1),
        Err(Error::NotOwner)
    );
    assert_eq!(snapshot(&kitties), before);
}

#[test]
fn transfer_failed_invalid_kitty_id() {
    let mut kitties = new_test_ext();
    assert!(kitties.create(Origin::signed(ACCOUNT_ID_1), &SEED, None).is_ok());
    let before = snapshot(&kitties);
    assert_eq!(
        kitties.transfer(Origin::signed(ACCOUNT_ID_1), 1, ACCOUNT_ID_2),
        Err(Error::InvalidKittyId)
    );
    assert_eq!(snapshot(&kitties), before);
}

#[test]
fn transfer_failed_not_enough_balance_reserved() {
    let mut kitties = new_test_ext();
    assert!(kitties.create(Origin::signed(ACCOUNT_ID_1), &SEED, None).is_ok());
    let before = snapshot(&kitties);
    assert_eq!(
        kitties.transfer(Origin::signed(ACCOUNT_ID_1), 0, ACCOUNT_ID_3),
        Err(Error::NotEnoughBalanceReserved)
    );
    assert_eq!(snapshot(&kitties), before);
}

/****************************************SELL***************************************************/
#[test]
fn sell_works() {
    let mut kitties = new_test_ext();
    let price: u128 = 2_000;

    assert!(kitties.create(Origin::signed(ACCOUNT_ID_1), &SEED, None).is_ok());
    let event = kitties.sell(Origin::signed(ACCOUNT_ID_1), 0, Some(price));
    assert!(event.is_ok());
    assert_eq!(kitties.sale_list(0), Some(price));

    assert_eq!(event, Ok(Event::KittyOnSale(ACCOUNT_ID_1, 0, Some(price))));
}

#[test]
fn sell_failed_not_owner() {
    let price: u128 = 2_000;

    let mut kitties = new_test_ext();
    assert!(kitties.create(Origin::signed(ACCOUNT_ID_1), &SEED, None).is_ok());
    let before = snapshot(&kitties);
    assert_eq!(kitties.sell(Origin::signed(ACCOUNT_ID_2), 0, Some(price)), Err(Error::NotOwner));
    assert_eq!(snapshot(&kitties), before);
}

/****************************************BUY***************************************************/
#[test]
fn buy_works() {
    let mut kitties = new_test_ext();
    let price: u128 = 2_000;

    assert!(kitties.create(Origin::signed(ACCOUNT_ID_1), &SEED, None).is_ok());
    assert!(kitties.sell(Origin::signed(ACCOUNT_ID_1), 0, Some(price)).is_ok());
    let event = kitties.buy(Origin::signed(ACCOUNT_ID_2), 0);
    assert!(event.is_ok());
    assert_eq!(kitties.kitty_owned_by(0), Some(ACCOUNT_ID_2));

    assert_eq!(event, Ok(Event::KittySaled(ACCOUNT_ID_1, ACCOUNT_ID_2, 0, Some(price))));
}

#[test]
fn buy_failed_already_owned() {
    let mut kitties = new_test_ext();
    let price: u128 = 2_000;

    assert!(kitties.create(Origin::signed(ACCOUNT_ID_1), &SEED, None).is_ok());
    assert!(kitties.sell(Origin::signed(ACCOUNT_ID_1), 0, Some(price)).is_ok());
    let before = snapshot(&kitties);
    assert_eq!(kitties.buy(Origin::signed(ACCOUNT_ID_1), 0), Err(Error::AlreadyOwned));
    assert_eq!(snapshot(&kitties), before);
}

#[test]
fn buy_failed_not_for_sale() {
    let mut kitties = new_test_ext();
    assert!(kitties.create(Origin::signed(ACCOUNT_ID_1), &SEED, None).is_ok());
    let before = snapshot(&kitties);
    assert_eq!(kitties.buy(Origin::signed(ACCOUNT_ID_2), 0), Err(Error::NotForSale));
    assert_eq!(snapshot(&kitties), before);
}

#[test]
fn buy_failed_not_enought_balance_buy() {
    let mut kitties = new_test_ext();
    let price: u128 = 11_000;

    assert!(kitties.create(Origin::signed(ACCOUNT_ID_1), &SEED, None).is_ok());
    assert!(kitties.sell(Origin::signed(ACCOUNT_ID_1), 0, Some(price)).is_ok());
    let before = snapshot(&kitties);
    assert_eq!(kitties.buy(Origin::signed(ACCOUNT_ID_4), 0), Err(Error::NotEnoughBalanceBuy));
    assert_eq!(snapshot(&kitties), before);
}

/****************************************MORE***************************************************/
#[test]
fn first_identifier_is_zero() {
    assert_eq!(GetDefaultValue(), 0);
    let kitties = new_test_ext();
    assert_eq!(kitties.kitty_count(), 0);
    assert_eq!(kitties.get_next_id(), Ok(0));
}

#[test]
fn mint_creates_kitty_zero_and_reserves_one_deposit() {
    let mut kitties = new_test_ext();
    let dna = [5u8; 16];
    assert_eq!(kitties.mint(ACCOUNT_ID_1, dna), Ok((ACCOUNT_ID_1, 0, Kitty(dna))));
    assert_eq!(kitties.kitty_count(), 1);
    assert_eq!(kitties.get_next_id(), Ok(1));
    assert_eq!(kitties.kitties(0), Some(Kitty(dna)));
    assert_eq!(kitties.get_kitty(0), Ok(Kitty(dna)));
    assert_eq!(kitties.get_kitty(1), Err(()));
    assert_eq!(kitties.kitty_owned_by(0), Some(ACCOUNT_ID_1));
    assert_eq!(kitties.owned_kitty(ACCOUNT_ID_1), vec![0]);
    assert_eq!(kitties.sale_list(0), None);
    assert_eq!(
        kitties.currency().account(ACCOUNT_ID_1),
        AccountData { free: RICH - RESERVED, reserved: RESERVED }
    );
    assert_eq!(kitties.currency().reserved_balance(ACCOUNT_ID_1), RESERVED);
}

#[test]
fn mint_with_exactly_the_deposit_goes_through() {
    let mut kitties = new_test_ext();
    assert_eq!(kitties.endow(ACCOUNT_ID_3, 1), Ok(()));
    assert!(kitties.mint(ACCOUNT_ID_3, [0; 16]).is_ok());
    assert_eq!(
        kitties.currency().account(ACCOUNT_ID_3),
        AccountData { free: 0, reserved: RESERVED }
    );
}

#[test]
fn mint_at_capacity_fails_and_issues_no_identifier() {
    let mut kitties = new_test_ext();
    for id in 0..3u32 {
        assert_eq!(
            kitties.mint(ACCOUNT_ID_1, [id as u8; 16]),
            Ok((ACCOUNT_ID_1, id, Kitty([id as u8; 16])))
        );
    }
    assert_eq!(kitties.owned_kitty(ACCOUNT_ID_1), vec![0, 1, 2]);
    let before = snapshot(&kitties);
    let rejected = kitties.mint(ACCOUNT_ID_1, [9; 16]);
    assert_eq!(rejected, Err(Error::ExceedMaxOwned));
    assert_eq!(rejected.unwrap_err().kind(), ErrorKind::Capacity);
    assert_eq!(snapshot(&kitties), before);
    assert_eq!(kitties.kitty_count(), 3);
    assert_eq!(kitties.currency().reserved_balance(ACCOUNT_ID_1), 3 * RESERVED);
    // The next kitty, for someone else, gets the identifier that was not used.
    assert_eq!(kitties.mint(ACCOUNT_ID_2, [9; 16]), Ok((ACCOUNT_ID_2, 3, Kitty([9; 16]))));
}

#[test]
fn mint_at_capacity_without_funds_reports_the_funds() {
    let mut kitties = Pallet::<0>::new(Config { reserved: RESERVED, existential_deposit: 1 });
    assert_eq!(kitties.mint(ACCOUNT_ID_1, [0; 16]), Err(Error::NotEnoughBalanceReserved));
    assert_eq!(kitties.endow(ACCOUNT_ID_1, RESERVED), Ok(()));
    assert_eq!(kitties.mint(ACCOUNT_ID_1, [0; 16]), Err(Error::ExceedMaxOwned));
    assert_eq!(kitties.kitty_count(), 0);
}

#[test]
fn create_derives_the_genome_from_seed_caller_and_index() {
    let mut kitties = new_test_ext();
    assert_eq!(
        kitties.create(Origin::signed(ACCOUNT_ID_1), &SEED, Some(5)),
        Ok(Event::KittyCreated(
            ACCOUNT_ID_1,
            0,
            Kitty([31, 139, 3, 224, 225, 242, 147, 255, 107, 104, 82, 105, 163, 118, 248, 249])
        ))
    );
    assert_eq!(
        kitties.create(Origin::signed(ACCOUNT_ID_2), &SEED, Some(5)),
        Ok(Event::KittyCreated(
            ACCOUNT_ID_2,
            1,
            Kitty([97, 143, 57, 208, 201, 54, 179, 28, 238, 219, 181, 146, 14, 81, 84, 124])
        ))
    );
    assert_eq!(
        kitties.create(Origin::signed(ACCOUNT_ID_1), &SEED, None),
        Ok(Event::KittyCreated(
            ACCOUNT_ID_1,
            2,
            Kitty([203, 72, 224, 182, 212, 228, 215, 133, 120, 11, 106, 156, 2, 170, 100, 74])
        ))
    );
}

#[test]
fn breed_genome_takes_each_bit_from_the_parent_the_selector_names() {
    let first = Kitty([0xff; 16]);
    let second = Kitty([0x00; 16]);
    let mut selector = [0u8; 16];
    for (i, byte) in selector.iter_mut().enumerate() {
        *byte = (i as u8) * 17;
    }
    // Ones from the first parent, zeroes from the second: the selector itself.
    assert_eq!(breed_genome(&first, &second, &selector), selector);
    // The other way round: its complement.
    let mut complement = [0u8; 16];
    for i in 0..16 {
        complement[i] = !selector[i];
    }
    assert_eq!(breed_genome(&second, &first, &selector), complement);
    assert_eq!(
        breed_genome(&Kitty([0b1100_1100; 16]), &Kitty([0b1010_1010; 16]), &[0b1111_0000; 16]),
        [0b1100_1010; 16]
    );
}

#[test]
fn breed_combines_the_parents_under_the_derived_selector() {
    let mut kitties = new_test_ext();
    let first = [0b1100_1100; 16];
    let second = [0b1010_1010; 16];
    assert!(kitties.mint(ACCOUNT_ID_1, first).is_ok());
    assert!(kitties.mint(ACCOUNT_ID_2, second).is_ok());
    let selector: [u8; 16] =
        [31, 139, 3, 224, 225, 242, 147, 255, 107, 104, 82, 105, 163, 118, 248, 249];
    let mut child = [0u8; 16];
    for i in 0..16 {
        child[i] = (first[i] & selector[i]) | (second[i] & !selector[i]);
    }
    assert_eq!(
        kitties.breed(Origin::signed(ACCOUNT_ID_1), 0, 1, &SEED, Some(5)),
        Ok(Event::KittyBreed(ACCOUNT_ID_1, 2, Kitty(child)))
    );
    assert_eq!(kitties.kitties(2), Some(Kitty(child)));
    assert_eq!(kitties.owned_kitty(ACCOUNT_ID_1), vec![0, 2]);
    assert_eq!(kitties.currency().reserved_balance(ACCOUNT_ID_1), 2 * RESERVED);
}

#[test]
fn breed_is_reproducible() {
    let mut one = new_test_ext();
    let mut other = new_test_ext();
    for kitties in [&mut one, &mut other] {
        assert!(kitties.mint(ACCOUNT_ID_1, [0x3c; 16]).is_ok());
        assert!(kitties.mint(ACCOUNT_ID_1, [0xa5; 16]).is_ok());
    }
    let bred = one.breed(Origin::signed(ACCOUNT_ID_2), 0, 1, &SEED, Some(6));
    assert!(bred.is_ok());
    assert_eq!(bred, other.breed(Origin::signed(ACCOUNT_ID_2), 0, 1, &SEED, Some(6)));
    assert_eq!(one.kitties(2), other.kitties(2));
}

#[test]
fn breed_depends_on_seed_caller_and_index() {
    let parents = |kitties: &mut KittiesMod| {
        assert!(kitties.mint(ACCOUNT_ID_1, [0xff; 16]).is_ok());
        assert!(kitties.mint(ACCOUNT_ID_1, [0x00; 16]).is_ok());
    };
    let genome = |who: u64, seed: &[u8; 32], index: Option<u32>| {
        let mut kitties = new_test_ext();
        parents(&mut kitties);
        assert!(kitties.breed(Origin::signed(who), 0, 1, seed, index).is_ok());
        kitties.kitties(2).unwrap()
    };
    let mut other_seed = SEED;
    other_seed[0] = 8;
    let reference = genome(ACCOUNT_ID_2, &SEED, Some(5));
    assert_eq!(
        reference,
        Kitty([97, 143, 57, 208, 201, 54, 179, 28, 238, 219, 181, 146, 14, 81, 84, 124])
    );
    assert_ne!(genome(ACCOUNT_ID_1, &SEED, Some(5)), reference);
    assert_ne!(genome(ACCOUNT_ID_2, &SEED, Some(6)), reference);
    assert_ne!(genome(ACCOUNT_ID_2, &other_seed, Some(5)), reference);
}

#[test]
fn breed_at_capacity_fails_and_changes_nothing() {
    let mut kitties = new_test_ext();
    for _ in 0..3 {
        assert!(kitties.create(Origin::signed(ACCOUNT_ID_1), &SEED, None).is_ok());
    }
    let before = snapshot(&kitties);
    assert_eq!(
        kitties.breed(Origin::signed(ACCOUNT_ID_1), 0, 1, &SEED, None),
        Err(Error::ExceedMaxOwned)
    );
    assert_eq!(snapshot(&kitties), before);
}

#[test]
fn transfer_moves_the_deposit_with_the_kitty() {
    let mut kitties = new_test_ext();
    for _ in 0..3 {
        assert!(kitties.create(Origin::signed(ACCOUNT_ID_1), &SEED, None).is_ok());
    }
    assert!(kitties.transfer(Origin::signed(ACCOUNT_ID_1), 0, ACCOUNT_ID_2).is_ok());
    // The last kitty took the place of the one that left.
    assert_eq!(kitties.owned_kitty(ACCOUNT_ID_1), vec![2, 1]);
    assert_eq!(kitties.owned_kitty(ACCOUNT_ID_2), vec![0]);
    assert_eq!(
        kitties.currency().account(ACCOUNT_ID_1),
        AccountData { free: RICH - 2 * RESERVED, reserved: 2 * RESERVED }
    );
    assert_eq!(
        kitties.currency().account(ACCOUNT_ID_2),
        AccountData { free: RICH - RESERVED, reserved: RESERVED }
    );
}

#[test]
fn transfer_to_oneself_moves_the_kitty_to_the_end() {
    let mut kitties = new_test_ext();
    for _ in 0..3 {
        assert!(kitties.create(Origin::signed(ACCOUNT_ID_1), &SEED, None).is_ok());
    }
    let funds = kitties.currency().account(ACCOUNT_ID_1);
    assert_eq!(
        kitties.transfer(Origin::signed(ACCOUNT_ID_1), 0, ACCOUNT_ID_1),
        Ok(Event::KittyTransferred(ACCOUNT_ID_1, ACCOUNT_ID_1, 0))
    );
    assert_eq!(kitties.owned_kitty(ACCOUNT_ID_1), vec![2, 1, 0]);
    assert_eq!(kitties.kitty_owned_by(0), Some(ACCOUNT_ID_1));
    assert_eq!(kitties.currency().account(ACCOUNT_ID_1), funds);
}

#[test]
fn transfer_to_an_account_at_capacity_fails_and_changes_nothing() {
    let mut kitties = new_test_ext();
    for _ in 0..3 {
        assert!(kitties.create(Origin::signed(ACCOUNT_ID_2), &SEED, None).is_ok());
    }
    assert!(kitties.create(Origin::signed(ACCOUNT_ID_1), &SEED, None).is_ok());
    let before = snapshot(&kitties);
    let rejected = kitties.transfer(Origin::signed(ACCOUNT_ID_1), 3, ACCOUNT_ID_2);
    assert_eq!(rejected, Err(Error::ExceedMaxOwned));
    assert_eq!(rejected.unwrap_err().kind(), ErrorKind::Capacity);
    assert_eq!(snapshot(&kitties), before);
}

#[test]
fn transfer_leaves_the_listing_in_place() {
    let mut kitties = new_test_ext();
    assert!(kitties.create(Origin::signed(ACCOUNT_ID_1), &SEED, None).is_ok());
    assert!(kitties.sell(Origin::signed(ACCOUNT_ID_1), 0, Some(2_000)).is_ok());
    assert!(kitties.transfer(Origin::signed(ACCOUNT_ID_1), 0, ACCOUNT_ID_2).is_ok());
    assert_eq!(kitties.sale_list(0), Some(2_000));
}

#[test]
fn sell_failed_invalid_kitty_id() {
    let mut kitties = new_test_ext();
    let before = snapshot(&kitties);
    assert_eq!(
        kitties.sell(Origin::signed(ACCOUNT_ID_1), 0, Some(2_000)),
        Err(Error::InvalidKittyId)
    );
    assert_eq!(snapshot(&kitties), before);
}

#[test]
fn sell_without_a_price_takes_the_kitty_off_the_list() {
    let mut kitties = new_test_ext();
    assert!(kitties.create(Origin::signed(ACCOUNT_ID_1), &SEED, None).is_ok());
    assert!(kitties.sell(Origin::signed(ACCOUNT_ID_1), 0, Some(2_000)).is_ok());
    assert!(kitties.sell(Origin::signed(ACCOUNT_ID_1), 0, Some(3_000)).is_ok());
    assert_eq!(kitties.sale_list(0), Some(3_000));
    assert_eq!(
        kitties.sell(Origin::signed(ACCOUNT_ID_1), 0, None),
        Ok(Event::KittyOnSale(ACCOUNT_ID_1, 0, None))
    );
    assert_eq!(kitties.sale_list(0), None);
    assert_eq!(kitties.buy(Origin::signed(ACCOUNT_ID_2), 0), Err(Error::NotForSale));
}

#[test]
fn buy_settles_deposit_price_ownership_and_listing() {
    let mut kitties = new_test_ext();
    let price: u128 = 2_000;
    assert!(kitties.create(Origin::signed(ACCOUNT_ID_1), &SEED, None).is_ok());
    assert!(kitties.sell(Origin::signed(ACCOUNT_ID_1), 0, Some(price)).is_ok());
    assert!(kitties.buy(Origin::signed(ACCOUNT_ID_2), 0).is_ok());
    assert_eq!(kitties.kitty_owned_by(0), Some(ACCOUNT_ID_2));
    assert_eq!(kitties.owned_kitty(ACCOUNT_ID_1), Vec::<u32>::new());
    assert_eq!(kitties.owned_kitty(ACCOUNT_ID_2), vec![0]);
    assert_eq!(kitties.sale_list(0), None);
    assert_eq!(
        kitties.currency().account(ACCOUNT_ID_1),
        AccountData { free: RICH + price, reserved: 0 }
    );
    assert_eq!(
        kitties.currency().account(ACCOUNT_ID_2),
        AccountData { free: RICH - price - RESERVED, reserved: RESERVED }
    );
}

#[test]
fn buy_failed_invalid_kitty_id() {
    let mut kitties = new_test_ext();
    let before = snapshot(&kitties);
    let rejected = kitties.buy(Origin::signed(ACCOUNT_ID_2), 0);
    assert_eq!(rejected, Err(Error::InvalidKittyId));
    assert_eq!(rejected.unwrap_err().kind(), ErrorKind::NotFound);
    assert_eq!(snapshot(&kitties), before);
}

#[test]
fn buy_with_funds_equal_to_price_plus_deposit_is_rejected() {
    let mut kitties = new_test_ext();
    assert!(kitties.create(Origin::signed(ACCOUNT_ID_1), &SEED, None).is_ok());
    assert!(kitties.sell(Origin::signed(ACCOUNT_ID_1), 0, Some(10_000)).is_ok());
    // Account 4 holds 20_000: exactly the price plus the deposit.
    let before = snapshot(&kitties);
    let rejected = kitties.buy(Origin::signed(ACCOUNT_ID_4), 0);
    assert_eq!(rejected, Err(Error::NotEnoughBalanceBuy));
    assert_eq!(rejected.unwrap_err().kind(), ErrorKind::Funds);
    assert_eq!(snapshot(&kitties), before);
    // One more unit is enough.
    assert_eq!(kitties.endow(ACCOUNT_ID_4, 1), Ok(()));
    assert!(kitties.buy(Origin::signed(ACCOUNT_ID_4), 0).is_ok());
    assert_eq!(
        kitties.currency().account(ACCOUNT_ID_4),
        AccountData { free: 1, reserved: RESERVED }
    );
}

#[test]
fn buy_at_a_price_beyond_every_balance_is_rejected() {
    let mut kitties = new_test_ext();
    assert!(kitties.create(Origin::signed(ACCOUNT_ID_1), &SEED, None).is_ok());
    assert!(kitties.sell(Origin::signed(ACCOUNT_ID_1), 0, Some(u128::MAX)).is_ok());
    let before = snapshot(&kitties);
    assert_eq!(kitties.buy(Origin::signed(ACCOUNT_ID_2), 0), Err(Error::NotEnoughBalanceBuy));
    assert_eq!(snapshot(&kitties), before);
}

#[test]
fn buy_that_would_overfill_the_seller_fails_and_changes_nothing() {
    let mut kitties = new_test_ext();
    assert!(kitties.create(Origin::signed(ACCOUNT_ID_1), &SEED, None).is_ok());
    assert!(kitties.sell(Origin::signed(ACCOUNT_ID_1), 0, Some(2_000)).is_ok());
    // The seller holds all but 1_000 of what a balance can count.
    assert_eq!(kitties.endow(ACCOUNT_ID_1, u128::MAX - RICH - 1_000), Ok(()));
    let before = snapshot(&kitties);
    let rejected = kitties.buy(Origin::signed(ACCOUNT_ID_2), 0);
    assert_eq!(rejected, Err(Error::PayableTransferFailed));
    assert_eq!(rejected.unwrap_err().kind(), ErrorKind::Funds);
    assert_eq!(snapshot(&kitties), before);
}

#[test]
fn buy_that_would_leave_the_seller_below_the_minimum_fails() {
    let mut kitties = Pallet::<3>::new(Config { reserved: 10, existential_deposit: 500 });
    assert_eq!(kitties.endow(ACCOUNT_ID_1, 10), Ok(()));
    assert_eq!(kitties.endow(ACCOUNT_ID_2, 10_000), Ok(()));
    assert!(kitties.create(Origin::signed(ACCOUNT_ID_1), &SEED, None).is_ok());
    assert!(kitties.sell(Origin::signed(ACCOUNT_ID_1), 0, Some(100)).is_ok());
    // The seller would hold 110 after the sale, less than the minimum of 500.
    assert_eq!(kitties.buy(Origin::signed(ACCOUNT_ID_2), 0), Err(Error::PayableTransferFailed));
    assert_eq!(kitties.currency().account(ACCOUNT_ID_1), AccountData { free: 0, reserved: 10 });
    assert_eq!(
        kitties.currency().account(ACCOUNT_ID_2),
        AccountData { free: 10_000, reserved: 0 }
    );
    assert_eq!(kitties.kitty_owned_by(0), Some(ACCOUNT_ID_1));
    assert_eq!(kitties.sale_list(0), Some(100));
}

#[test]
fn buy_by_an_account_at_capacity_fails_and_changes_nothing() {
    let mut kitties = new_test_ext();
    for _ in 0..3 {
        assert!(kitties.create(Origin::signed(ACCOUNT_ID_2), &SEED, None).is_ok());
    }
    assert!(kitties.create(Origin::signed(ACCOUNT_ID_1), &SEED, None).is_ok());
    assert!(kitties.sell(Origin::signed(ACCOUNT_ID_1), 3, Some(2_000)).is_ok());
    let before = snapshot(&kitties);
    let rejected = kitties.buy(Origin::signed(ACCOUNT_ID_2), 3);
    assert_eq!(rejected, Err(Error::ExceedMaxOwned));
    assert_eq!(rejected.unwrap_err().kind(), ErrorKind::Capacity);
    assert_eq!(snapshot(&kitties), before);
}

#[test]
fn unsigned_origin_is_rejected_by_every_kitty_call() {
    let mut kitties = new_test_ext();
    assert!(kitties.create(Origin::signed(ACCOUNT_ID_1), &SEED, None).is_ok());
    let before = snapshot(&kitties);
    assert_eq!(kitties.create(Origin::root(), &SEED, None), Err(Error::BadOrigin));
    assert_eq!(kitties.breed(Origin::unsigned(), 0, 0, &SEED, None), Err(Error::BadOrigin));
    assert_eq!(kitties.transfer(Origin::root(), 0, ACCOUNT_ID_2), Err(Error::BadOrigin));
    assert_eq!(kitties.sell(Origin::unsigned(), 0, Some(1)), Err(Error::BadOrigin));
    assert_eq!(kitties.buy(Origin::root(), 0), Err(Error::BadOrigin));
    assert_eq!(Error::BadOrigin.kind(), ErrorKind::Authorization);
    assert_eq!(snapshot(&kitties), before);
}

#[test]
fn escrow_is_one_deposit_per_kitty_after_every_call() {
    let mut kitties = new_test_ext();
    let check = |kitties: &KittiesMod| {
        for who in 0..6u64 {
            assert_eq!(
                kitties.currency().reserved_balance(who),
                RESERVED * kitties.owned_kitty(who).len() as u128
            );
        }
    };
    check(&kitties);
    assert!(kitties.create(Origin::signed(ACCOUNT_ID_1), &SEED, Some(0)).is_ok());
    check(&kitties);
    assert!(kitties.create(Origin::signed(ACCOUNT_ID_2), &SEED, Some(1)).is_ok());
    check(&kitties);
    assert!(kitties.breed(Origin::signed(ACCOUNT_ID_1), 0, 1, &SEED, Some(2)).is_ok());
    check(&kitties);
    assert!(kitties.transfer(Origin::signed(ACCOUNT_ID_1), 0, ACCOUNT_ID_4).is_ok());
    check(&kitties);
    assert!(kitties.sell(Origin::signed(ACCOUNT_ID_4), 0, Some(50)).is_ok());
    check(&kitties);
    assert!(kitties.buy(Origin::signed(ACCOUNT_ID_2), 0).is_ok());
    check(&kitties);
    assert!(kitties.transfer(Origin::signed(ACCOUNT_ID_2), 1, ACCOUNT_ID_2).is_ok());
    check(&kitties);
    assert!(kitties.buy(Origin::signed(ACCOUNT_ID_3), 0).is_err());
    check(&kitties);
}

#[test]
fn every_kitty_is_in_exactly_one_owned_list() {
    let mut kitties = new_test_ext();
    assert!(kitties.create(Origin::signed(ACCOUNT_ID_1), &SEED, Some(0)).is_ok());
    assert!(kitties.create(Origin::signed(ACCOUNT_ID_1), &SEED, Some(1)).is_ok());
    assert!(kitties.create(Origin::signed(ACCOUNT_ID_2), &SEED, Some(2)).is_ok());
    assert!(kitties.transfer(Origin::signed(ACCOUNT_ID_1), 0, ACCOUNT_ID_2).is_ok());
    assert!(kitties.sell(Origin::signed(ACCOUNT_ID_2), 2, Some(5)).is_ok());
    assert!(kitties.buy(Origin::signed(ACCOUNT_ID_4), 2).is_ok());
    for id in 0..5u32 {
        let holders: usize = (0..6u64)
            .map(|who| kitties.owned_kitty(who).iter().filter(|owned| **owned == id).count())
            .sum();
        assert_eq!(holders, if id < kitties.kitty_count() { 1 } else { 0 });
        if let Some(owner) = kitties.kitty_owned_by(id) {
            assert!(kitties.owned_kitty(owner).contains(&id));
        }
    }
}

#[test]
fn kitty_errors_have_their_kinds() {
    assert_eq!(Error::InvalidKittyId.kind(), ErrorKind::NotFound);
    assert_eq!(Error::NotForSale.kind(), ErrorKind::NotFound);
    assert_eq!(Error::SameKittyId.kind(), ErrorKind::Conflict);
    assert_eq!(Error::AlreadyOwned.kind(), ErrorKind::Conflict);
    assert_eq!(Error::NotOwner.kind(), ErrorKind::Authorization);
    assert_eq!(Error::NotEnoughBalanceReserved.kind(), ErrorKind::Funds);
    assert_eq!(Error::NotEnoughBalanceBuy.kind(), ErrorKind::Funds);
    assert_eq!(Error::PayableTransferFailed.kind(), ErrorKind::Funds);
    assert_eq!(Error::ExceedMaxOwned.kind(), ErrorKind::Capacity);
    assert_eq!(Error::IssuanceExhausted.kind(), ErrorKind::Capacity);
    assert_eq!(Error::InvariantViolation.kind(), ErrorKind::InvariantViolation);
}
