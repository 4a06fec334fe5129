use minibasic::environment::Environment;
use minibasic::number::Number;

#[test]
fn empty_store_holds_nothing() {
    let store = Environment::new();
    assert_eq!(store.get("X"), None);
    assert_eq!(store.get(""), None);
}

#[test]
fn stored_numbers_are_found_by_name() {
    let mut store = Environment::new();
    store.insert("X".to_string(), Number::from_bits(1));
    store.insert("Y".to_string(), Number::from_bits(2));
    assert_eq!(store.get("X"), Some(Number::from_bits(1)));
    assert_eq!(store.get("Y"), Some(Number::from_bits(2)));
    assert_eq!(store.get("Z"), None);
    assert_eq!(store.get("x"), None);
}

#[test]
fn storing_again_replaces() {
    let mut store = Environment::new();
    store.insert("X".to_string(), Number::from_bits(1));
    store.insert("Y".to_string(), Number::from_bits(2));
    store.insert("X".to_string(), Number::from_bits(3));
    assert_eq!(store.get("X"), Some(Number::from_bits(3)));
    assert_eq!(store.get("Y"), Some(Number::from_bits(2)));
    store.insert("Y".to_string(), Number::from_bits(4));
    store.insert("Y".to_string(), Number::from_bits(5));
    assert_eq!(store.get("X"), Some(Number::from_bits(3)));
    assert_eq!(store.get("Y"), Some(Number::from_bits(5)));
}
