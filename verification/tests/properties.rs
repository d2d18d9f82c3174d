use kitties::ledger::Ledger;
use kitties::ledger::LedgerError;
use kitties::registry::Error;
use kitties::registry::Event;
use kitties::registry::Registry;

const SEED: [u8; 8] = *b"aaaabbbb";
const ENTROPY: [u8; 16] = [42; 16];
const BALANCE: u128 = 1_000_000;

#[test]
fn create_allocates_identifiers_in_order() {
    let mut reg = Registry::new();
    assert_eq!(reg.create(5, SEED, ENTROPY), Ok(0));
    assert_eq!(reg.create(5, SEED, ENTROPY), Ok(1));
    assert_eq!(reg.create(9, SEED, ENTROPY), Ok(2));
    assert_eq!(reg.next_kitty_id(), 3);
}

#[test]
fn create_at_capacity_fails_and_keeps_counter() {
    let mut reg = Registry::new();
    assert_eq!(reg.create(1, SEED, ENTROPY), Ok(0));
    reg.set_next_kitty_id(u32::MAX);
    assert_eq!(
        reg.create(1, SEED, ENTROPY),
        Err(Error::IdentifierSpaceExhausted)
    );
    assert_eq!(reg.next_kitty_id(), u32::MAX);
    assert_eq!(reg.events().len(), 1);
}

#[test]
fn breed_at_capacity_fails_and_keeps_counter() {
    let mut reg = Registry::new();
    assert_eq!(reg.create(1, SEED, ENTROPY), Ok(0));
    assert_eq!(reg.create(1, SEED, ENTROPY), Ok(1));
    reg.set_next_kitty_id(u32::MAX);
    assert_eq!(
        reg.breed(1, 0, 1, SEED, ENTROPY),
        Err(Error::IdentifierSpaceExhausted)
    );
    assert_eq!(reg.next_kitty_id(), u32::MAX);
}

#[test]
fn breed_same_existing_parent_fails() {
    let mut reg = Registry::new();
    assert_eq!(reg.create(1, SEED, ENTROPY), Ok(0));
    assert_eq!(reg.breed(1, 0, 0, SEED, ENTROPY), Err(Error::SameParent));
    assert_eq!(reg.next_kitty_id(), 1);
}

#[test]
fn breeding_is_permissionless_over_existing_assets() {
    let mut reg = Registry::new();
    assert_eq!(reg.create(1, SEED, ENTROPY), Ok(0));
    assert_eq!(reg.create(2, SEED, ENTROPY), Ok(1));
    // account 3 owns neither parent
    assert_eq!(reg.breed(3, 0, 1, SEED, ENTROPY), Ok(2));
    assert_eq!(reg.kitty_owner(2), Some(3));
    assert_eq!(reg.kitty_parents(2), Some((0, 1)));
}

#[test]
fn child_payload_recombines_parent_bytes() {
    let mut reg = Registry::new();
    assert_eq!(reg.create(1, SEED, ENTROPY), Ok(0));
    assert_eq!(reg.create(1, *b"zzzzyyyy", [99; 16]), Ok(1));
    assert_eq!(reg.breed(1, 0, 1, SEED, ENTROPY), Ok(2));
    let a = reg.kitties(0).unwrap();
    let b = reg.kitties(1).unwrap();
    let c = reg.kitties(2).unwrap();
    for i in 0..16 {
        assert!(c.dna[i] == a.dna[i] || c.dna[i] == b.dna[i]);
    }
}

#[test]
fn payload_derivation_is_deterministic_and_identifier_sensitive() {
    let mut reg1 = Registry::new();
    let mut reg2 = Registry::new();
    assert_eq!(reg1.create(1, SEED, ENTROPY), Ok(0));
    assert_eq!(reg2.create(1, SEED, ENTROPY), Ok(0));
    // same seed, entropy, caller and identifier: the same payload
    assert_eq!(reg1.kitties(0).unwrap(), reg2.kitties(0).unwrap());
    // same seed, entropy and caller but a fresh identifier: a different payload
    assert_eq!(reg1.create(1, SEED, ENTROPY), Ok(1));
    assert_ne!(reg1.kitties(0).unwrap(), reg1.kitties(1).unwrap());
}

#[test]
fn transfer_clears_listing() {
    let mut reg = Registry::new();
    assert_eq!(reg.create(1, SEED, ENTROPY), Ok(0));
    assert!(reg.sale(1, 0, 500).is_ok());
    assert_eq!(reg.kitty_on_sale(0), Some(500));
    assert!(reg.transfer(1, 2, 0).is_ok());
    assert_eq!(reg.kitty_owner(0), Some(2));
    assert_eq!(reg.kitty_on_sale(0), None);
}

#[test]
fn self_transfer_is_permitted_and_clears_listing() {
    let mut reg = Registry::new();
    assert_eq!(reg.create(1, SEED, ENTROPY), Ok(0));
    assert!(reg.sale(1, 0, 500).is_ok());
    let events_before = reg.events().len();
    assert!(reg.transfer(1, 1, 0).is_ok());
    assert_eq!(reg.kitty_owner(0), Some(1));
    assert_eq!(reg.kitty_on_sale(0), None);
    assert_eq!(reg.events().len(), events_before + 1);
}

#[test]
fn transfer_of_unknown_asset_fails() {
    let mut reg = Registry::new();
    assert_eq!(reg.transfer(1, 2, 0), Err(Error::UnknownAsset));
}

#[test]
fn relisting_replaces_the_price() {
    let mut reg = Registry::new();
    assert_eq!(reg.create(1, SEED, ENTROPY), Ok(0));
    assert!(reg.sale(1, 0, 500).is_ok());
    assert!(reg.sale(1, 0, 750).is_ok());
    assert_eq!(reg.kitty_on_sale(0), Some(750));
}

#[test]
fn listing_at_zero_price_is_permitted() {
    let mut reg = Registry::new();
    let mut bal = Ledger::new();
    bal.force_set_balance(2, BALANCE);
    assert_eq!(reg.create(1, SEED, ENTROPY), Ok(0));
    assert!(reg.sale(1, 0, 0).is_ok());
    assert_eq!(reg.kitty_on_sale(0), Some(0));
    assert_eq!(reg.buy(2, 0, &mut bal), Ok(()));
    assert_eq!(reg.kitty_owner(0), Some(2));
    assert_eq!(bal.free_balance(2), BALANCE);
}

#[test]
fn buy_with_insufficient_funds_changes_nothing() {
    let mut reg = Registry::new();
    let mut bal = Ledger::new();
    bal.force_set_balance(2, 499);
    assert_eq!(reg.create(1, SEED, ENTROPY), Ok(0));
    assert!(reg.sale(1, 0, 500).is_ok());
    assert_eq!(
        reg.buy(2, 0, &mut bal),
        Err(Error::Currency(LedgerError::InsufficientFunds))
    );
    assert_eq!(reg.kitty_owner(0), Some(1));
    assert_eq!(reg.kitty_on_sale(0), Some(500));
    assert_eq!(bal.free_balance(2), 499);
    assert_eq!(bal.free_balance(1), 0);
}

#[test]
fn buy_into_overflowing_balance_changes_nothing() {
    let mut reg = Registry::new();
    let mut bal = Ledger::new();
    bal.force_set_balance(1, u128::MAX);
    bal.force_set_balance(2, BALANCE);
    assert_eq!(reg.create(1, SEED, ENTROPY), Ok(0));
    assert!(reg.sale(1, 0, 500).is_ok());
    assert_eq!(
        reg.buy(2, 0, &mut bal),
        Err(Error::Currency(LedgerError::ReceiverOverflow))
    );
    assert_eq!(reg.kitty_owner(0), Some(1));
    assert_eq!(bal.free_balance(1), u128::MAX);
    assert_eq!(bal.free_balance(2), BALANCE);
}

#[test]
fn buy_settles_exactly_the_listed_price() {
    let mut reg = Registry::new();
    let mut bal = Ledger::new();
    bal.force_set_balance(1, BALANCE);
    bal.force_set_balance(2, BALANCE);
    assert_eq!(reg.create(1, SEED, ENTROPY), Ok(0));
    assert!(reg.sale(1, 0, 500).is_ok());
    assert_eq!(reg.buy(2, 0, &mut bal), Ok(()));
    assert_eq!(reg.kitty_owner(0), Some(2));
    assert_eq!(reg.kitty_on_sale(0), None);
    assert_eq!(bal.free_balance(2), BALANCE - 500);
    assert_eq!(bal.free_balance(1), BALANCE + 500);
}

#[test]
fn buy_checks_existence_then_ownership_then_listing() {
    let mut reg = Registry::new();
    let mut bal = Ledger::new();
    bal.force_set_balance(1, BALANCE);
    assert_eq!(reg.create(1, SEED, ENTROPY), Ok(0));
    assert!(reg.sale(1, 0, 500).is_ok());
    // the owner is refused even though the asset is listed
    assert_eq!(reg.buy(1, 0, &mut bal), Err(Error::AlreadyOwned));
    // a missing asset is refused before anything else is looked at
    assert_eq!(reg.buy(1, 9, &mut bal), Err(Error::UnknownAsset));
    assert_eq!(reg.kitty_on_sale(0), Some(500));
    assert_eq!(bal.free_balance(1), BALANCE);
}

#[test]
fn failed_operations_emit_no_event() {
    let mut reg = Registry::new();
    let mut bal = Ledger::new();
    assert_eq!(reg.create(1, SEED, ENTROPY), Ok(0));
    let n = reg.events().len();
    assert!(reg.breed(1, 0, 0, SEED, ENTROPY).is_err());
    assert!(reg.transfer(2, 3, 0).is_err());
    assert!(reg.sale(2, 0, 500).is_err());
    assert!(reg.buy(1, 0, &mut bal).is_err());
    assert_eq!(reg.events().len(), n);
}

#[test]
fn ledger_set_get_and_default_zero() {
    let mut bal = Ledger::new();
    assert_eq!(bal.free_balance(7), 0);
    bal.force_set_balance(7, 100);
    assert_eq!(bal.free_balance(7), 100);
    bal.force_set_balance(7, 25);
    assert_eq!(bal.free_balance(7), 25);
    assert_eq!(bal.free_balance(8), 0);
}

#[test]
fn ledger_transfer_moves_funds_or_nothing() {
    let mut bal = Ledger::new();
    bal.force_set_balance(1, 100);
    assert_eq!(bal.transfer(1, 2, 40), Ok(()));
    assert_eq!(bal.free_balance(1), 60);
    assert_eq!(bal.free_balance(2), 40);
    assert_eq!(bal.transfer(1, 2, 61), Err(LedgerError::InsufficientFunds));
    assert_eq!(bal.free_balance(1), 60);
    assert_eq!(bal.free_balance(2), 40);
}

#[test]
fn marketplace_scenario() {
    let mut reg = Registry::new();
    let mut bal = Ledger::new();
    bal.force_set_balance(1, BALANCE);
    bal.force_set_balance(2, BALANCE);

    assert_eq!(reg.create(1, SEED, ENTROPY), Ok(0));
    assert_eq!(reg.create(1, SEED, ENTROPY), Ok(1));

    assert_eq!(reg.breed(1, 0, 1, SEED, ENTROPY), Ok(2));
    assert_eq!(reg.kitty_owner(2), Some(1));
    assert_eq!(reg.kitty_parents(2), Some((0, 1)));

    assert!(reg.sale(1, 0, 500).is_ok());
    assert_eq!(reg.buy(2, 0, &mut bal), Ok(()));

    assert_eq!(reg.kitty_owner(0), Some(2));
    assert_eq!(bal.free_balance(2), BALANCE - 500);
    assert!(reg.events().contains(&Event::KittyBought { who: 2, kitty_id: 0 }));
}
