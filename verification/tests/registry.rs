use marketplace::MarketError;
use marketplace::ShopRegistry;

fn s(x: &str) -> String {
    x.to_string()
}

#[test]
fn register_and_list_by_owner() {
    let mut registry = ShopRegistry::new();
    let shop = registry.register_shop(s("alice"), s("s1"), s("Corner"), s("Berlin")).unwrap();
    assert_eq!(shop.id, "s1");
    assert_eq!(shop.name, "Corner");
    assert_eq!(shop.location, "Berlin");

    registry.register_shop(s("alice"), s("s2"), s("Second"), s("Paris")).unwrap();
    registry.register_shop(s("bob"), s("s3"), s("Third"), s("Oslo")).unwrap();

    let alices = registry.list_shops_by_owner(&s("alice"));
    assert_eq!(alices.len(), 2);
    assert_eq!(alices[0].id, "s1");
    assert_eq!(alices[1].id, "s2");

    let bobs = registry.list_shops_by_owner(&s("bob"));
    assert_eq!(bobs.len(), 1);
    assert_eq!(bobs[0].id, "s3");
}

#[test]
fn duplicate_shop_id_is_refused_for_any_owner() {
    let mut registry = ShopRegistry::new();
    registry.register_shop(s("alice"), s("s1"), s("Corner"), s("Berlin")).unwrap();

    let err = registry.register_shop(s("bob"), s("s1"), s("Imposter"), s("Oslo")).unwrap_err();
    assert_eq!(err, MarketError::DuplicateId);

    assert_eq!(registry.list_shops_by_owner(&s("alice")).len(), 1);
    assert_eq!(registry.list_shops_by_owner(&s("bob")).len(), 0);
}

#[test]
fn owner_without_shops_gets_empty_sequence() {
    let registry = ShopRegistry::new();
    assert_eq!(registry.list_shops_by_owner(&s("nobody")).len(), 0);
    assert!(!registry.contains_shop_id(&s("s1")));
}

#[test]
fn registry_reads_are_idempotent() {
    let mut registry = ShopRegistry::new();
    registry.register_shop(s("alice"), s("s1"), s("Corner"), s("Berlin")).unwrap();
    let first = registry.list_shops_by_owner(&s("alice"));
    let second = registry.list_shops_by_owner(&s("alice"));
    assert_eq!(first, second);
}
