use mpp_test_sdk::json::{Json, JsonNumber};
use mpp_test_sdk::shared::SharedSlot;
use mpp_test_sdk::string_map::StringMap;

#[test]
fn a_map_keeps_one_value_for_each_key() {
    let mut map: StringMap<u32> = StringMap::new();
    assert!(map.get("a").is_none());
    map.insert("a".to_string(), 1);
    map.insert("b".to_string(), 2);
    map.insert("a".to_string(), 3);
    assert_eq!(map.get("a"), Some(&3));
    assert_eq!(map.get("b"), Some(&2));
    assert_eq!(map.get("c"), None);
    assert_eq!(map.entries().len(), 2);
}

#[test]
fn members_of_an_object() {
    let object = Json::object(vec![
        ("a".to_string(), Json::whole(7)),
        ("b".to_string(), Json::text("x")),
    ]);
    assert_eq!(object.at("a").as_u64(), Some(7));
    assert_eq!(object.at("b").as_str(), Some("x"));
    assert!(object.at("c").is_null());
    assert!(object.get("c").is_none());
    assert!(object.is_object());
    assert!(Json::text("a").at("a").is_null());
}

#[test]
fn kinds_of_numbers() {
    assert_eq!(Json::Number(JsonNumber::NegInt(-1)).as_u64(), None);
    assert_eq!(Json::Number(JsonNumber::Float(1.0f64.to_bits())).as_u64(), None);
    assert_eq!(Json::whole(0).as_u64(), Some(0));
    assert_eq!(Json::text("1").as_u64(), None);
}

#[test]
fn numbers_among_the_items() {
    let items = Json::array(vec![
        Json::whole(1),
        Json::text("2"),
        Json::Null,
        Json::Number(JsonNumber::NegInt(-3)),
    ]);
    assert_eq!(items.numbers(), vec![JsonNumber::PosInt(1), JsonNumber::NegInt(-3)]);
    assert_eq!(items.as_array().map(|v| v.len()), Some(4));
    assert!(Json::Null.numbers().is_empty());
}

#[test]
fn the_first_client_is_shared_until_it_is_discarded() {
    let mut slot: SharedSlot<&str> = SharedSlot::new();
    assert!(slot.get().is_none());
    assert_eq!(*slot.install("first"), "first");
    assert_eq!(*slot.install("second"), "first");
    assert_eq!(slot.get(), Some(&"first"));
    slot.reset();
    assert!(slot.get().is_none());
    assert_eq!(*slot.install("third"), "third");
}
