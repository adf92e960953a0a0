use marketplace::ids::decimal_string;
use marketplace::ids::holding_id;

#[test]
fn decimal_strings_are_exact() {
    assert_eq!(decimal_string(0), "0");
    assert_eq!(decimal_string(7), "7");
    assert_eq!(decimal_string(10), "10");
    assert_eq!(decimal_string(1203), "1203");
    assert_eq!(decimal_string(usize::MAX), usize::MAX.to_string());
}

#[test]
fn holding_ids_join_base_and_counter() {
    assert_eq!(holding_id(&"p1".to_string(), 0), "p1#0");
    assert_eq!(holding_id(&"p1".to_string(), 42), "p1#42");
    assert_eq!(holding_id(&"".to_string(), 5), "#5");
}
