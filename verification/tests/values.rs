use lexicon_ty::{Decode, Json, Shape};

#[test]
fn every_value_has_its_shape() {
    assert_eq!(Json::Null.shape(), Shape::Null);
    assert_eq!(Json::Bool(true).shape(), Shape::Bool);
    assert_eq!(Json::Int(-3).shape(), Shape::Int);
    assert_eq!(Json::Decimal("2.5".to_string()).shape(), Shape::Decimal);
    assert_eq!(Json::Str(String::new()).shape(), Shape::Str);
    assert_eq!(Json::Array(vec![]).shape(), Shape::Array);
    assert_eq!(Json::Object(vec![]).shape(), Shape::Object);
}

#[test]
fn every_shape_is_put_in_words() {
    assert_eq!(Shape::Null.in_words(), "null");
    assert_eq!(Shape::Bool.in_words(), "a boolean");
    assert_eq!(Shape::Int.in_words(), "an integer");
    assert_eq!(
        Shape::Decimal.in_words(),
        "a number with a fraction or an exponent"
    );
    assert_eq!(Shape::Str.in_words(), "a string");
    assert_eq!(Shape::Array.in_words(), "an array");
    assert_eq!(Shape::Object.in_words(), "an object");
}

#[test]
fn a_string_is_decoded_from_a_string() {
    assert_eq!(
        String::decode(&Json::Str("text".to_string())),
        Ok("text".to_string())
    );
    assert_eq!(String::decode(&Json::Str(String::new())), Ok(String::new()));
    assert!(String::decode(&Json::Int(1)).is_err());
    assert!(String::decode(&Json::Null).is_err());
}

#[test]
fn a_boolean_is_decoded_from_true_or_false() {
    assert_eq!(bool::decode(&Json::Bool(true)), Ok(true));
    assert_eq!(bool::decode(&Json::Bool(false)), Ok(false));
    assert!(bool::decode(&Json::Int(1)).is_err());
    assert!(bool::decode(&Json::Str("true".to_string())).is_err());
}

#[test]
fn an_integer_is_decoded_within_its_range() {
    assert_eq!(u32::decode(&Json::Int(7)), Ok(7));
    assert_eq!(u64::decode(&Json::Int(7)), Ok(7));
    assert_eq!(i64::decode(&Json::Int(-7)), Ok(-7));
    assert!(u32::decode(&Json::Int(-7)).is_err());
    assert!(u64::decode(&Json::Int(-7)).is_err());
    assert!(u32::decode(&Json::Int(1 << 32)).is_err());
    assert_eq!(u64::decode(&Json::Int(1 << 32)), Ok(1 << 32));
    assert_eq!(i64::decode(&Json::Int(1 << 32)), Ok(1 << 32));
    assert!(i64::decode(&Json::Int(1 << 63)).is_err());
    assert_eq!(u64::decode(&Json::Int(1 << 63)), Ok(1 << 63));
    assert!(u64::decode(&Json::Int(1 << 64)).is_err());
    assert!(i64::decode(&Json::Decimal("1.0".to_string())).is_err());
}

#[test]
fn a_list_is_decoded_item_by_item() {
    let items = Json::Array(vec![Json::Int(3), Json::Int(1), Json::Int(2)]);
    assert_eq!(Vec::<u32>::decode(&items), Ok(vec![3, 1, 2]));
    assert_eq!(Vec::<String>::decode(&Json::Array(vec![])), Ok(vec![]));
    assert!(Vec::<u32>::decode(&Json::Object(vec![])).is_err());
    let mixed = Json::Array(vec![Json::Int(3), Json::Str("x".to_string()), Json::Null]);
    let error = Vec::<u32>::decode(&mixed).expect_err("the second item is no integer");
    assert_eq!(error.path, vec![lexicon_ty::Step::Index(1)]);
}

#[test]
fn a_mapping_is_decoded_entry_by_entry() {
    let entries = Json::Object(vec![
        ("a".to_string(), Json::Int(1)),
        ("b".to_string(), Json::Int(2)),
        ("a".to_string(), Json::Int(3)),
    ]);
    let map = lexicon_ty::NameMap::<u32>::decode(&entries).expect("every value is an integer");
    assert_eq!(map.len(), 2);
    assert_eq!(map.get("a"), Some(&3));
    assert_eq!(map.get("b"), Some(&2));
    let mixed = Json::Object(vec![
        ("a".to_string(), Json::Int(1)),
        ("b".to_string(), Json::Bool(true)),
        ("c".to_string(), Json::Null),
    ]);
    let error = lexicon_ty::NameMap::<u32>::decode(&mixed).expect_err("b is no integer");
    assert_eq!(error.path, vec![lexicon_ty::Step::Key("b".to_string())]);
    assert!(lexicon_ty::NameMap::<u32>::decode(&Json::Array(vec![])).is_err());
}

#[test]
fn a_clone_is_the_same_value() {
    let value = Json::Object(vec![
        (
            "a".to_string(),
            Json::Array(vec![Json::Int(1), Json::Null, Json::Bool(false)]),
        ),
        (
            "b".to_string(),
            Json::Object(vec![("c".to_string(), Json::Str("d".to_string()))]),
        ),
        ("a".to_string(), Json::Decimal("1.5".to_string())),
    ]);
    let copy = value.clone();
    assert_eq!(copy, value);
    assert_eq!(Json::Null.clone(), Json::Null);
    assert_eq!(Json::Array(vec![]).clone(), Json::Array(vec![]));
}
