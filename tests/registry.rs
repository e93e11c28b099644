use command_registry::command::{CommandDetail, Quality};
use command_registry::registry::{Registry, RegistryError};
use near_sdk::AccountId;

const ONE_NEAR: u128 = 1_000_000_000_000_000_000_000_000;

fn account(name: &str) -> AccountId {
    name.parse::<AccountId>().unwrap()
}

fn registry() -> Registry {
    Registry::new(account("test.near"), ONE_NEAR)
}

fn add(
    reg: &mut Registry,
    caller: &str,
    id: &str,
    product: &str,
    is_sell: bool,
    amount: u128,
    price: u128,
) -> Result<(), RegistryError> {
    reg.add_command(
        account(caller),
        70 * ONE_NEAR,
        id.to_string(),
        product.to_string(),
        is_sell,
        amount,
        price,
        None,
    )
}

fn ids(v: &[CommandDetail]) -> Vec<String> {
    v.iter().map(|c| c.command_id.clone()).collect()
}

#[test]
fn buy_side_scenario() {
    let mut reg = registry();
    let commander = "commander.test.near";
    assert_eq!(
        add(&mut reg, commander, "command_1", "Iphone_14", false, 2, 30_000_000_000_000_000_000_000_000),
        Ok(())
    );
    assert_eq!(
        add(&mut reg, commander, "command_2", "Iphone_14", false, 1, 31_000_000_000_000_000_000_000_000),
        Ok(())
    );

    let c = reg.get_command(&"command_1".to_string()).unwrap();
    assert_eq!(c.command_id, "command_1");
    assert_eq!(c.name_product.to_string(), "Iphone_14");
    assert_eq!(c.is_sell, false);
    assert_eq!(c.amount_product, 2);
    assert_eq!(c.price_per_product, 30000000000000000000000000);

    let v = reg.get_product_order_way(&"Iphone_14".to_string(), false);
    assert_eq!(v.len(), 2);
    assert_eq!(v[0].command_id, "command_2");
    assert_eq!(v[0].amount_product, 1);
    assert_eq!(v[0].price_per_product, 31000000000000000000000000);
    assert_eq!(v[1].command_id, "command_1");
    assert_eq!(v[1].amount_product, 2);
    assert_eq!(v[1].price_per_product, 30000000000000000000000000);
}

#[test]
fn get_returns_submitted_fields_and_caller() {
    let mut reg = registry();
    let quality = Quality {
        certificate: vec![account("cert.near"), account("lab.near")],
        stage: vec![account("farm.near"), account("harbour.near"), account("shop.near")],
    };
    let r = reg.add_command(
        account("alice.near"),
        ONE_NEAR,
        "c1".to_string(),
        "Coffee".to_string(),
        true,
        5,
        7,
        Some(quality),
    );
    assert_eq!(r, Ok(()));
    let c = reg.get_command(&"c1".to_string()).unwrap();
    assert_eq!(c.command_id, "c1");
    assert_eq!(c.name_product, "Coffee");
    assert!(c.is_sell);
    assert_eq!(c.amount_product, 5);
    assert_eq!(c.price_per_product, 7);
    assert_eq!(c.command_owner_id, account("alice.near"));
    let q = c.quality.unwrap();
    assert_eq!(q.certificate, vec![account("cert.near"), account("lab.near")]);
    assert_eq!(q.stage, vec![account("farm.near"), account("harbour.near"), account("shop.near")]);
}

#[test]
fn duplicate_identifier_is_rejected() {
    let mut reg = registry();
    assert_eq!(add(&mut reg, "alice.near", "c1", "Tea", false, 3, 10), Ok(()));
    assert_eq!(
        add(&mut reg, "bob.near", "c1", "Milk", true, 9, 99),
        Err(RegistryError::DuplicateCommand)
    );
    assert_eq!(reg.len(), 1);
    let c = reg.get_command(&"c1".to_string()).unwrap();
    assert_eq!(c.name_product, "Tea");
    assert!(!c.is_sell);
    assert_eq!(c.amount_product, 3);
    assert_eq!(c.price_per_product, 10);
    assert_eq!(c.command_owner_id, account("alice.near"));
}

#[test]
fn zero_amount_or_price_is_rejected() {
    let mut reg = registry();
    assert_eq!(
        add(&mut reg, "alice.near", "c1", "Tea", false, 0, 10),
        Err(RegistryError::InvalidAmountOrPrice)
    );
    assert_eq!(
        add(&mut reg, "alice.near", "c2", "Tea", false, 4, 0),
        Err(RegistryError::InvalidAmountOrPrice)
    );
    assert_eq!(reg.len(), 0);
    assert_eq!(reg.get_command(&"c1".to_string()).unwrap_err(), RegistryError::CommandNotFound);
    assert!(reg.get_product_order_way(&"Tea".to_string(), false).is_empty());
}

#[test]
fn zero_amount_reported_before_duplicate() {
    let mut reg = registry();
    assert_eq!(add(&mut reg, "alice.near", "c1", "Tea", false, 3, 10), Ok(()));
    assert_eq!(
        add(&mut reg, "alice.near", "c1", "Tea", false, 0, 10),
        Err(RegistryError::InvalidAmountOrPrice)
    );
}

#[test]
fn insufficient_deposit_is_rejected() {
    let mut reg = registry();
    let r = reg.add_command(
        account("alice.near"),
        ONE_NEAR - 1,
        "c1".to_string(),
        "Tea".to_string(),
        false,
        1,
        1,
        None,
    );
    assert_eq!(r, Err(RegistryError::InsufficientDeposit));
    assert_eq!(reg.len(), 0);
    let r = reg.add_command(
        account("alice.near"),
        ONE_NEAR,
        "c1".to_string(),
        "Tea".to_string(),
        false,
        1,
        1,
        None,
    );
    assert_eq!(r, Ok(()));
    assert_eq!(reg.min_deposit(), ONE_NEAR);
}

#[test]
fn unknown_identifier_is_not_found() {
    let mut reg = registry();
    assert_eq!(add(&mut reg, "alice.near", "c1", "Tea", false, 1, 1), Ok(()));
    assert_eq!(reg.get_command(&"c2".to_string()).unwrap_err(), RegistryError::CommandNotFound);
}

#[test]
fn empty_product_gives_empty_list() {
    let mut reg = registry();
    assert!(reg.get_product_order_way(&"Iphone_14".to_string(), false).is_empty());
    assert_eq!(add(&mut reg, "alice.near", "c1", "Iphone_14", true, 1, 5), Ok(()));
    assert!(reg.get_product_order_way(&"Iphone_14".to_string(), false).is_empty());
    assert!(reg.get_product_order_way(&"Pixel".to_string(), true).is_empty());
}

#[test]
fn sell_side_lowest_price_first() {
    let mut reg = registry();
    assert_eq!(add(&mut reg, "a.near", "s1", "Tea", true, 1, 50), Ok(()));
    assert_eq!(add(&mut reg, "a.near", "s2", "Tea", true, 1, 20), Ok(()));
    assert_eq!(add(&mut reg, "a.near", "s3", "Tea", true, 1, 35), Ok(()));
    let v = reg.get_product_order_way(&"Tea".to_string(), true);
    assert_eq!(ids(&v), vec!["s2", "s3", "s1"]);
}

#[test]
fn equal_prices_keep_submission_order() {
    let mut reg = registry();
    assert_eq!(add(&mut reg, "a.near", "b1", "Tea", false, 1, 10), Ok(()));
    assert_eq!(add(&mut reg, "a.near", "b2", "Tea", false, 2, 12), Ok(()));
    assert_eq!(add(&mut reg, "a.near", "b3", "Tea", false, 3, 10), Ok(()));
    assert_eq!(add(&mut reg, "a.near", "b4", "Tea", false, 4, 12), Ok(()));
    assert_eq!(add(&mut reg, "a.near", "b5", "Tea", false, 5, 10), Ok(()));
    let v = reg.get_product_order_way(&"Tea".to_string(), false);
    assert_eq!(ids(&v), vec!["b2", "b4", "b1", "b3", "b5"]);
}

#[test]
fn listing_keeps_only_product_and_side() {
    let mut reg = registry();
    assert_eq!(add(&mut reg, "a.near", "b1", "Tea", false, 1, 10), Ok(()));
    assert_eq!(add(&mut reg, "a.near", "s1", "Tea", true, 1, 11), Ok(()));
    assert_eq!(add(&mut reg, "a.near", "b2", "Milk", false, 1, 12), Ok(()));
    assert_eq!(add(&mut reg, "a.near", "b3", "Tea", false, 1, 13), Ok(()));
    assert_eq!(ids(&reg.get_product_order_way(&"Tea".to_string(), false)), vec!["b3", "b1"]);
    assert_eq!(ids(&reg.get_product_order_way(&"Tea".to_string(), true)), vec!["s1"]);
    assert_eq!(ids(&reg.get_product_order_way(&"Milk".to_string(), false)), vec!["b2"]);
}

#[test]
fn largest_price_is_ranked_first() {
    let mut reg = registry();
    assert_eq!(add(&mut reg, "a.near", "b1", "Gold", false, 1, u128::MAX - 1), Ok(()));
    assert_eq!(add(&mut reg, "a.near", "b2", "Gold", false, u128::MAX, u128::MAX), Ok(()));
    let v = reg.get_product_order_way(&"Gold".to_string(), false);
    assert_eq!(ids(&v), vec!["b2", "b1"]);
    assert_eq!(v[0].amount_product, u128::MAX);
}

#[test]
fn returned_command_is_a_copy() {
    let mut reg = registry();
    assert_eq!(add(&mut reg, "a.near", "c1", "Tea", false, 1, 10), Ok(()));
    let mut c = reg.get_command(&"c1".to_string()).unwrap();
    c.price_per_product = 99;
    c.command_owner_id = account("mallory.near");
    let again = reg.get_command(&"c1".to_string()).unwrap();
    assert_eq!(again.price_per_product, 10);
    assert_eq!(again.command_owner_id, account("a.near"));
}

#[test]
fn snapshot_copies_every_field() {
    let c = CommandDetail {
        command_id: "x".to_string(),
        name_product: "Tea".to_string(),
        is_sell: true,
        amount_product: 4,
        price_per_product: 8,
        quality: Some(Quality { certificate: vec![account("c.near")], stage: vec![] }),
        command_owner_id: account("o.near"),
    };
    let d = c.snapshot();
    assert_eq!(d.command_id, "x");
    assert_eq!(d.name_product, "Tea");
    assert!(d.is_sell);
    assert_eq!(d.amount_product, 4);
    assert_eq!(d.price_per_product, 8);
    assert_eq!(d.quality.as_ref().unwrap().certificate, vec![account("c.near")]);
    assert!(d.quality.unwrap().stage.is_empty());
    assert_eq!(d.command_owner_id, account("o.near"));
}

#[test]
fn new_registry_is_empty() {
    let reg = registry();
    assert_eq!(reg.len(), 0);
    assert_eq!(reg.owner_id(), &account("test.near"));
}
