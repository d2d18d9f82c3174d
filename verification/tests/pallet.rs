use kitties::ledger::Ledger;
use kitties::registry::Error;
use kitties::registry::Event;
use kitties::registry::Registry;

const KITTY_NAME: [u8; 8] = *b"test1111";
const ACCOUNT_BALANCE: u128 = 1000000000;
const ENTROPY: [u8; 16] = [7; 16];

#[test]
fn it_works_for_create() {
    let mut kitties = Registry::new();
    let mut balances = Ledger::new();
    let kitty_id = 0;
    let account_id = 1;

    balances.force_set_balance(account_id, ACCOUNT_BALANCE);

    assert_eq!(kitties.next_kitty_id(), kitty_id);
    assert!(kitties.create(account_id, KITTY_NAME, ENTROPY).is_ok());

    let k = kitties.kitties(kitty_id).unwrap();
    assert!(kitties.events().contains(&Event::KittyCreated {
        who: account_id,
        kitty_id,
        kitty: k,
    }));

    assert_eq!(kitties.next_kitty_id(), kitty_id + 1);
    assert_eq!(kitties.kitties(kitty_id).is_some(), true);
    assert_eq!(kitties.kitty_owner(kitty_id), Some(account_id));
    assert_eq!(kitties.kitty_parents(kitty_id), None);

    kitties.set_next_kitty_id(u32::MAX);
    assert_eq!(
        kitties.create(account_id, KITTY_NAME, ENTROPY),
        Err(Error::IdentifierSpaceExhausted)
    );
    assert_eq!(kitties.next_kitty_id(), u32::MAX);
}

#[test]
fn it_works_for_breed() {
    let mut kitties = Registry::new();
    let mut balances = Ledger::new();
    let kitty_id = 0;
    let account_id = 1;

    balances.force_set_balance(account_id, ACCOUNT_BALANCE);

    assert_eq!(
        kitties.breed(account_id, kitty_id, kitty_id, KITTY_NAME, ENTROPY),
        Err(Error::SameParent)
    );
    assert_eq!(
        kitties.breed(account_id, kitty_id, kitty_id + 1, KITTY_NAME, ENTROPY),
        Err(Error::UnknownAsset)
    );

    assert!(kitties.create(account_id, KITTY_NAME, ENTROPY).is_ok());
    assert!(kitties.create(account_id, KITTY_NAME, ENTROPY).is_ok());

    assert_eq!(kitties.next_kitty_id(), kitty_id + 2);

    assert!(kitties
        .breed(account_id, kitty_id, kitty_id + 1, KITTY_NAME, ENTROPY)
        .is_ok());

    let breed_kitty_id = 2;
    let k = kitties.kitties(breed_kitty_id).unwrap();

    assert!(kitties.events().contains(&Event::KittyBred {
        who: account_id,
        kitty_id: breed_kitty_id,
        kitty: k,
    }));

    assert_eq!(kitties.next_kitty_id(), breed_kitty_id + 1);
    assert_eq!(kitties.kitties(breed_kitty_id).is_some(), true);
    assert_eq!(kitties.kitty_owner(breed_kitty_id), Some(account_id));
    assert_eq!(
        kitties.kitty_parents(breed_kitty_id),
        Some((kitty_id, kitty_id + 1))
    );
}

#[test]
fn it_works_for_transfer() {
    let mut kitties = Registry::new();
    let mut balances = Ledger::new();
    let kitty_id = 0;
    let account_id = 1;
    let recepient = 2;

    balances.force_set_balance(account_id, ACCOUNT_BALANCE);

    assert!(kitties.create(account_id, KITTY_NAME, ENTROPY).is_ok());
    assert_eq!(kitties.kitty_owner(kitty_id), Some(account_id));

    assert_eq!(
        kitties.transfer(recepient, recepient, kitty_id),
        Err(Error::NotOwner)
    );

    assert!(kitties.transfer(account_id, recepient, kitty_id).is_ok());

    assert!(kitties.events().contains(&Event::KittyTransferred {
        who: account_id,
        to: recepient,
        kitty_id,
    }));

    assert_eq!(kitties.kitty_owner(kitty_id), Some(recepient));

    assert!(kitties.transfer(recepient, account_id, kitty_id).is_ok());

    assert_eq!(kitties.kitty_owner(kitty_id), Some(account_id));
}

#[test]
fn it_works_for_sale() {
    let mut kitties = Registry::new();
    let mut balances = Ledger::new();
    let kitty_id = 0;
    let account_id = 1;

    balances.force_set_balance(account_id, ACCOUNT_BALANCE);

    assert_eq!(kitties.next_kitty_id(), kitty_id);
    assert!(kitties.create(account_id, KITTY_NAME, ENTROPY).is_ok());

    // sale ok
    assert!(kitties.sale(account_id, kitty_id, 500).is_ok());

    // not owner
    assert_eq!(
        kitties.sale(account_id + 1, kitty_id, 500),
        Err(Error::NotOwner)
    );

    assert!(kitties.create(account_id, KITTY_NAME, ENTROPY).is_ok());

    // sale ok
    assert!(kitties.sale(account_id, kitty_id + 1, 500).is_ok());
}

#[test]
fn it_works_for_buy() {
    let mut kitties = Registry::new();
    let mut balances = Ledger::new();
    let kitty_id = 0;
    let account_id = 1;
    let account_id2 = 2;

    // add balance
    balances.force_set_balance(account_id, ACCOUNT_BALANCE);
    balances.force_set_balance(account_id2, ACCOUNT_BALANCE);

    assert_eq!(
        kitties.buy(account_id, kitty_id, &mut balances),
        Err(Error::UnknownAsset)
    );

    assert!(kitties.create(account_id, KITTY_NAME, ENTROPY).is_ok());

    // already owned
    assert_eq!(
        kitties.buy(account_id, kitty_id, &mut balances),
        Err(Error::AlreadyOwned)
    );

    // not on sale
    assert_eq!(
        kitties.buy(account_id2, kitty_id, &mut balances),
        Err(Error::NotOnSale)
    );

    assert!(kitties.sale(account_id, kitty_id, 500).is_ok());
    assert!(kitties.buy(account_id2, kitty_id, &mut balances).is_ok());
    assert_eq!(
        kitties.events().last(),
        Some(&Event::KittyBought {
            who: account_id2,
            kitty_id,
        })
    );
}
