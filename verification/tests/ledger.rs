use marketplace::MarketError;
use marketplace::ProductLedger;

fn s(x: &str) -> String {
    x.to_string()
}

fn seeded_ledger() -> ProductLedger {
    let mut ledger = ProductLedger::new();
    let listed = ledger
        .list_product(Some(s("s1")), s("p1"), s("Lamp"), s("Home"), 10, 5, s("alice"))
        .unwrap();
    assert_eq!(listed.id, "p1");
    ledger
}

#[test]
fn list_and_read_through_all_indexes() {
    let ledger = seeded_ledger();

    let by_shop = ledger.get_products_by_shop(&s("s1"));
    assert_eq!(by_shop.len(), 1);
    assert_eq!(by_shop[0].id, "p1");
    assert_eq!(by_shop[0].remaining_supply, 5);
    assert_eq!(by_shop[0].unit_price, 10);
    assert_eq!(by_shop[0].owner, "alice");
    assert_eq!(by_shop[0].shop_id, Some(s("s1")));

    let by_owner = ledger.get_products_by_owner(&s("alice"));
    assert_eq!(by_owner.len(), 1);
    assert_eq!(by_owner[0].id, "p1");

    let direct = ledger.get_product(&s("p1")).unwrap();
    assert_eq!(direct.remaining_supply, 5);
}

#[test]
fn successful_purchase_moves_supply_and_emits_one_settlement() {
    let mut ledger = seeded_ledger();

    let settlement = ledger.purchase(&s("p1"), 3, &s("bob"), 100).unwrap();
    assert_eq!(settlement.payer, "bob");
    assert_eq!(settlement.payee, "alice");
    assert_eq!(settlement.amount, 30);

    assert_eq!(ledger.get_product(&s("p1")).unwrap().remaining_supply, 2);

    let bobs = ledger.get_products_by_owner(&s("bob"));
    assert_eq!(bobs.len(), 1);
    assert_eq!(bobs[0].remaining_supply, 3);
    assert_eq!(bobs[0].shop_id, None);
    assert_eq!(bobs[0].owner, "bob");
    assert_eq!(bobs[0].unit_price, 10);

    // The holding is private to the buyer: it never enters the shop index.
    assert_eq!(ledger.get_products_by_shop(&s("s1")).len(), 1);
}

#[test]
fn insufficient_stock_changes_nothing() {
    let mut ledger = seeded_ledger();
    ledger.purchase(&s("p1"), 3, &s("bob"), 100).unwrap();

    let err = ledger.purchase(&s("p1"), 10, &s("bob"), 1000).unwrap_err();
    assert_eq!(err, MarketError::InsufficientStock);

    assert_eq!(ledger.get_product(&s("p1")).unwrap().remaining_supply, 2);
    assert_eq!(ledger.get_products_by_owner(&s("bob")).len(), 1);
}

#[test]
fn duplicate_listing_is_refused_and_catalog_keeps_one_record() {
    let mut ledger = seeded_ledger();

    let err = ledger
        .list_product(Some(s("s1")), s("p1"), s("Other"), s("Home"), 99, 9, s("carol"))
        .unwrap_err();
    assert_eq!(err, MarketError::DuplicateId);

    let record = ledger.get_product(&s("p1")).unwrap();
    assert_eq!(record.name, "Lamp");
    assert_eq!(record.remaining_supply, 5);
    assert_eq!(ledger.get_products_by_shop(&s("s1")).len(), 1);
    assert_eq!(ledger.get_products_by_owner(&s("carol")).len(), 0);
}

#[test]
fn unknown_product_is_not_found() {
    let mut ledger = seeded_ledger();
    assert!(ledger.get_product(&s("p9")).is_none());
    let err = ledger.purchase(&s("p9"), 1, &s("bob"), 100).unwrap_err();
    assert_eq!(err, MarketError::NotFound);
}

#[test]
fn insufficient_funds_changes_nothing() {
    let mut ledger = seeded_ledger();
    let err = ledger.purchase(&s("p1"), 2, &s("bob"), 19).unwrap_err();
    assert_eq!(err, MarketError::InsufficientFunds);
    assert_eq!(ledger.get_product(&s("p1")).unwrap().remaining_supply, 5);
    assert_eq!(ledger.get_products_by_owner(&s("bob")).len(), 0);
}

#[test]
fn price_overflow_is_rejected() {
    let mut ledger = ProductLedger::new();
    ledger
        .list_product(Some(s("s1")), s("gold"), s("Gold"), s("Metal"), u128::MAX, 5, s("alice"))
        .unwrap();
    let err = ledger.purchase(&s("gold"), 2, &s("bob"), u128::MAX).unwrap_err();
    assert_eq!(err, MarketError::Overflow);
    assert_eq!(ledger.get_product(&s("gold")).unwrap().remaining_supply, 5);
    assert_eq!(ledger.get_products_by_owner(&s("bob")).len(), 0);
}

#[test]
fn purchase_with_exact_funds_succeeds() {
    let mut ledger = seeded_ledger();
    let settlement = ledger.purchase(&s("p1"), 3, &s("bob"), 30).unwrap();
    assert_eq!(settlement.amount, 30);
}

#[test]
fn largest_representable_price_is_not_an_overflow() {
    let mut ledger = ProductLedger::new();
    ledger
        .list_product(Some(s("s1")), s("gold"), s("Gold"), s("Metal"), u128::MAX, 5, s("alice"))
        .unwrap();
    let settlement = ledger.purchase(&s("gold"), 1, &s("bob"), u128::MAX).unwrap();
    assert_eq!(settlement.amount, u128::MAX);
    assert_eq!(ledger.get_product(&s("gold")).unwrap().remaining_supply, 4);
}

#[test]
fn purchase_of_zero_units_settles_nothing_but_commits() {
    let mut ledger = seeded_ledger();
    let settlement = ledger.purchase(&s("p1"), 0, &s("bob"), 0).unwrap();
    assert_eq!(settlement.amount, 0);
    assert_eq!(ledger.get_product(&s("p1")).unwrap().remaining_supply, 5);
    let bobs = ledger.get_products_by_owner(&s("bob"));
    assert_eq!(bobs.len(), 1);
    assert_eq!(bobs[0].remaining_supply, 0);
}

#[test]
fn holding_ids_count_up_per_product() {
    let mut ledger = seeded_ledger();
    ledger.purchase(&s("p1"), 1, &s("bob"), 100).unwrap();
    ledger.purchase(&s("p1"), 1, &s("carol"), 100).unwrap();

    assert_eq!(ledger.get_products_by_owner(&s("bob"))[0].id, "p1#0");
    assert_eq!(ledger.get_products_by_owner(&s("carol"))[0].id, "p1#1");
}

#[test]
fn holding_id_skips_a_taken_candidate() {
    let mut ledger = seeded_ledger();
    // A listing that already carries the first candidate id: the minted
    // holding id must step past it instead of colliding.
    ledger
        .list_product(None, s("p1#0"), s("Decoy"), s("Home"), 1, 1, s("mallory"))
        .unwrap();

    ledger.purchase(&s("p1"), 1, &s("bob"), 100).unwrap();
    let bobs = ledger.get_products_by_owner(&s("bob"));
    assert_eq!(bobs.len(), 1);
    assert_eq!(bobs[0].id, "p1#1");
    assert_eq!(ledger.get_product(&s("p1#0")).unwrap().name, "Decoy");
}

#[test]
fn zero_supply_record_remains_as_artifact() {
    let mut ledger = seeded_ledger();
    ledger.purchase(&s("p1"), 5, &s("bob"), 100).unwrap();
    let record = ledger.get_product(&s("p1")).unwrap();
    assert_eq!(record.remaining_supply, 0);
    assert_eq!(ledger.get_products_by_shop(&s("s1")).len(), 1);
}

#[test]
fn reads_are_idempotent() {
    let mut ledger = seeded_ledger();
    ledger.purchase(&s("p1"), 2, &s("bob"), 100).unwrap();

    let first = ledger.get_product(&s("p1"));
    let second = ledger.get_product(&s("p1"));
    assert_eq!(first, second);

    let owner_first = ledger.get_products_by_owner(&s("bob"));
    let owner_second = ledger.get_products_by_owner(&s("bob"));
    assert_eq!(owner_first, owner_second);

    let shop_first = ledger.get_products_by_shop(&s("s1"));
    let shop_second = ledger.get_products_by_shop(&s("s1"));
    assert_eq!(shop_first, shop_second);
}

#[test]
fn empty_ledger_reads_are_empty() {
    let ledger = ProductLedger::new();
    assert!(ledger.get_product(&s("p1")).is_none());
    assert_eq!(ledger.get_products_by_owner(&s("alice")).len(), 0);
    assert_eq!(ledger.get_products_by_shop(&s("s1")).len(), 0);
    assert!(!ledger.contains_id(&s("p1")));
}

#[test]
fn owner_index_follows_ownership_not_shops() {
    let mut ledger = ProductLedger::new();
    ledger
        .list_product(Some(s("s1")), s("a"), s("A"), s("Cat"), 1, 1, s("alice"))
        .unwrap();
    ledger
        .list_product(Some(s("s2")), s("b"), s("B"), s("Cat"), 2, 2, s("alice"))
        .unwrap();
    ledger.list_product(None, s("c"), s("C"), s("Cat"), 3, 3, s("alice")).unwrap();

    let alices = ledger.get_products_by_owner(&s("alice"));
    assert_eq!(alices.len(), 3);
    assert_eq!(ledger.get_products_by_shop(&s("s1")).len(), 1);
    assert_eq!(ledger.get_products_by_shop(&s("s2")).len(), 1);
    // The shop-less listing appears in no shop index.
    assert_eq!(ledger.get_products_by_shop(&s("")).len(), 0);
}
