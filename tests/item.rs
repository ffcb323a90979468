use knapsack::Item;
use std::str::FromStr;

#[test]
fn test_item_new() {
    let item = Item::new(1, 100, 50);
    assert_eq!(item.id(), 1);
    assert_eq!(item.value(), 100);
    assert_eq!(item.weight(), 50);
}

#[test]
fn test_item_from_str() {
    let item_str = "1 100 50";
    let item = Item::from_str(item_str).unwrap();
    assert_eq!(item.id(), 1);
    assert_eq!(item.value(), 100);
    assert_eq!(item.weight(), 50);
}

#[test]
fn test_item_from_str_invalid() {
    let item_str = "1 100";
    let result = Item::from_str(item_str);
    assert!(result.is_err());
}

#[test]
fn test_item_from_str_non_numeric() {
    let item_str = "1 abc 50";
    let result = item_str.parse::<Item>();
    assert!(result.is_err());
}

#[test]
fn test_item_from_str_insufficient_fields() {
    let item_str = "1 100";
    let result = item_str.parse::<Item>();
    assert!(result.is_err());
}

#[test]
fn test_item_from_str_extra_fields() {
    let item_str = "1 100 50 200";
    let result = item_str.parse::<Item>();
    assert!(result.is_err());
}

#[test]
fn item_from_str_ignores_padding() {
    assert_eq!("  1\t100   50 ".parse::<Item>(), Ok(Item::new(1, 100, 50)));
    let text = format!("{} {} {}", u64::MAX, 0, 7);
    assert_eq!(Item::from_str(&text), Ok(Item::new(u64::MAX, 0, 7)));
}

#[test]
fn item_from_str_error_names_the_line() {
    assert_eq!(
        Item::from_str("1 100 50 200"),
        Err(knapsack::FormatError::BadItem("1 100 50 200".to_string()))
    );
}
