use lexicon_ty::{
    Cause, Decode, DecodeError, Error, Integer, Json, Lexicon, Message, Object, Output, Params,
    Record, Ref, Shape, Step, StringTy, Union,
};

fn lift(value: &serde_json::Value) -> Json {
    match value {
        serde_json::Value::Null => Json::Null,
        serde_json::Value::Bool(b) => Json::Bool(*b),
        serde_json::Value::Number(n) => {
            if let Some(i) = n.as_i64() {
                Json::Int(i128::from(i))
            } else if let Some(u) = n.as_u64() {
                Json::Int(i128::from(u))
            } else {
                Json::Decimal(n.to_string())
            }
        }
        serde_json::Value::String(s) => Json::Str(s.clone()),
        serde_json::Value::Array(items) => Json::Array(items.iter().map(lift).collect()),
        serde_json::Value::Object(entries) => {
            Json::Object(entries.iter().map(|(k, v)| (k.clone(), lift(v))).collect())
        }
    }
}

fn json(text: &str) -> Json {
    lift(&serde_json::from_str::<serde_json::Value>(text).expect("the text is JSON"))
}

fn key(name: &str) -> Step {
    Step::Key(name.to_string())
}

#[test]
fn a_document_that_is_no_object_is_rejected() {
    let shapes = [
        ("null", Shape::Null, "null"),
        ("false", Shape::Bool, "a boolean"),
        ("17", Shape::Int, "an integer"),
        (
            "1e3",
            Shape::Decimal,
            "a number with a fraction or an exponent",
        ),
        (r#""lexicon""#, Shape::Str, "a string"),
        ("[]", Shape::Array, "an array"),
    ];
    for (text, shape, words) in shapes {
        let error = Lexicon::decode(&json(text)).expect_err("no object");
        assert_eq!(error.path, vec![]);
        assert_eq!(error.expected, "an object");
        assert_eq!(error.cause, Cause::WrongShape(shape));
        assert_eq!(
            error.describe(),
            format!("at $: expected an object, found {}", words)
        );
    }
}

#[test]
fn a_missing_key_is_reported_at_the_node_that_lacks_it() {
    let error = Lexicon::decode(&json(r#"{"id":"a.b.c","defs":{}}"#)).expect_err("no version");
    assert_eq!(error.path, vec![]);
    assert_eq!(error.cause, Cause::MissingKey("lexicon"));
    assert_eq!(error.expected, "a member with this key");
    assert_eq!(
        error.describe(),
        "at $: expected a member with this key, found no key `lexicon`"
    );
    let error = Lexicon::decode(&json(r#"{"lexicon":1,"defs":{}}"#)).expect_err("no identifier");
    assert_eq!(error.cause, Cause::MissingKey("id"));
    let error =
        Lexicon::decode(&json(r#"{"lexicon":1,"id":"a.b.c"}"#)).expect_err("no definitions");
    assert_eq!(error.cause, Cause::MissingKey("defs"));
    let error = Lexicon::decode(&json("{}")).expect_err("nothing at all");
    assert_eq!(error.cause, Cause::MissingKey("lexicon"));
}

#[test]
fn every_member_that_must_be_present_is_missed() {
    let missing = |error: DecodeError, name: &'static str| {
        assert_eq!(error.cause, Cause::MissingKey(name));
        assert_eq!(error.path, vec![]);
    };
    missing(
        Record::decode(&json(r#"{"record":{"type":"object","properties":{}}}"#))
            .expect_err("no key"),
        "key",
    );
    missing(
        Record::decode(&json(r#"{"key":"tid"}"#)).expect_err("no record"),
        "record",
    );
    missing(
        Output::decode(&json(r#"{"schema":{"type":"ref","ref":"x"}}"#)).expect_err("no encoding"),
        "encoding",
    );
    missing(
        Error::decode(&json(r#"{"description":"nameless"}"#)).expect_err("no name"),
        "name",
    );
    missing(
        Message::decode(&json("{}")).expect_err("no schema"),
        "schema",
    );
    missing(
        Object::decode(&json(r#"{"required":[]}"#)).expect_err("no properties"),
        "properties",
    );
    missing(
        Params::decode(&json(r#"{"properties":{}}"#)).expect_err("no type"),
        "type",
    );
    missing(
        Params::decode(&json(r#"{"type":"params"}"#)).expect_err("no properties"),
        "properties",
    );
    missing(Ref::decode(&json("{}")).expect_err("no ref"), "ref");
    missing(
        Union::decode(&json(r#"{"closed":true}"#)).expect_err("no refs"),
        "refs",
    );
    missing(
        lexicon_ty::Array::decode(&json(r#"{"maxLength":1}"#)).expect_err("no items"),
        "items",
    );
    missing(
        lexicon_ty::ParamArray::decode(&json("{}")).expect_err("no items"),
        "items",
    );
}

#[test]
fn a_version_outside_32_bits_is_rejected() {
    let doc = |version: &str| {
        json(&format!(
            r#"{{"lexicon":{},"id":"a.b.c","defs":{{}}}}"#,
            version
        ))
    };
    assert_eq!(Lexicon::decode(&doc("0")).expect("in range").lexicon, 0);
    assert_eq!(
        Lexicon::decode(&doc("4294967295"))
            .expect("in range")
            .lexicon,
        u32::MAX
    );
    let error = Lexicon::decode(&doc("4294967296")).expect_err("too large");
    assert_eq!(error.cause, Cause::OutOfRange(4294967296));
    assert_eq!(error.path, vec![key("lexicon")]);
    assert_eq!(error.expected, "an integer from 0 to 4294967295");
    assert_eq!(
        error.describe(),
        "at $.lexicon: expected an integer from 0 to 4294967295, found the integer 4294967296"
    );
    let error = Lexicon::decode(&doc("-1")).expect_err("negative");
    assert_eq!(error.cause, Cause::OutOfRange(-1));
    assert_eq!(
        error.describe(),
        "at $.lexicon: expected an integer from 0 to 4294967295, found the integer -1"
    );
    let error = Lexicon::decode(&doc("1.0")).expect_err("no integer");
    assert_eq!(error.cause, Cause::WrongShape(Shape::Decimal));
    let error = Lexicon::decode(&doc(r#""1""#)).expect_err("no integer");
    assert_eq!(error.cause, Cause::WrongShape(Shape::Str));
}

#[test]
fn a_bound_of_an_integer_has_64_bits_with_a_sign() {
    let node = Integer::decode(&json(
        r#"{"minimum": -9223372036854775808, "maximum": 9223372036854775807, "default": -5}"#,
    ))
    .expect("in range");
    assert_eq!(node.minimum, Some(i64::MIN));
    assert_eq!(node.maximum, Some(i64::MAX));
    assert_eq!(node.default, Some(-5));
    let error =
        Integer::decode(&json(r#"{"maximum": 9223372036854775808}"#)).expect_err("too large");
    assert_eq!(error.cause, Cause::OutOfRange(9223372036854775808));
    assert_eq!(error.path, vec![key("maximum")]);
    assert_eq!(
        error.expected,
        "an integer from -9223372036854775808 to 9223372036854775807"
    );
    let below = Json::Object(vec![(
        "minimum".to_string(),
        Json::Int(i128::from(i64::MIN) - 1),
    )]);
    let error = Integer::decode(&below).expect_err("too small");
    assert_eq!(error.cause, Cause::OutOfRange(-9223372036854775809));
    assert_eq!(
        error.describe(),
        "at $.minimum: expected an integer from -9223372036854775808 to 9223372036854775807, found the integer -9223372036854775809"
    );
}

#[test]
fn a_length_has_64_bits_without_a_sign() {
    let node = StringTy::decode(&json(
        r#"{"maxLength": 18446744073709551615, "minLength": 0}"#,
    ))
    .expect("in range");
    assert_eq!(node.max_length, Some(u64::MAX));
    assert_eq!(node.min_length, Some(0));
    let error = StringTy::decode(&json(r#"{"maxLength": -1}"#)).expect_err("negative");
    assert_eq!(error.cause, Cause::OutOfRange(-1));
    assert_eq!(error.path, vec![key("maxLength")]);
    assert_eq!(error.expected, "an integer from 0 to 18446744073709551615");
    let above = Json::Object(vec![(
        "maxGraphemes".to_string(),
        Json::Int(i128::from(u64::MAX) + 1),
    )]);
    let error = StringTy::decode(&above).expect_err("too large");
    assert_eq!(error.cause, Cause::OutOfRange(18446744073709551616));
    let error = StringTy::decode(&json(r#"{"maxLength": 2.5}"#)).expect_err("no integer");
    assert_eq!(error.cause, Cause::WrongShape(Shape::Decimal));
}

#[test]
fn the_extremes_of_128_bits_are_written_out() {
    let most = Json::Object(vec![("default".to_string(), Json::Int(i128::MAX))]);
    let error = Integer::decode(&most).expect_err("too large");
    assert_eq!(
        error.describe(),
        format!(
            "at $.default: expected an integer from -9223372036854775808 to 9223372036854775807, found the integer {}",
            i128::MAX
        )
    );
    let least = Json::Object(vec![("default".to_string(), Json::Int(i128::MIN))]);
    let error = Integer::decode(&least).expect_err("too small");
    assert_eq!(error.cause, Cause::OutOfRange(i128::MIN));
    assert_eq!(
        error.describe(),
        format!(
            "at $.default: expected an integer from -9223372036854775808 to 9223372036854775807, found the integer {}",
            i128::MIN
        )
    );
}

#[test]
fn a_value_of_the_wrong_shape_is_rejected_where_it_stands() {
    let error = Lexicon::decode(&json(r#"{"lexicon":1,"id":7,"defs":{}}"#)).expect_err("no string");
    assert_eq!(error.path, vec![key("id")]);
    assert_eq!(error.expected, "a string");
    assert_eq!(error.cause, Cause::WrongShape(Shape::Int));
    assert_eq!(
        error.describe(),
        "at $.id: expected a string, found an integer"
    );
    let error =
        Lexicon::decode(&json(r#"{"lexicon":1,"id":"a.b.c","defs":[]}"#)).expect_err("no object");
    assert_eq!(error.path, vec![key("defs")]);
    assert_eq!(error.expected, "an object");
    assert_eq!(error.cause, Cause::WrongShape(Shape::Array));
    let error = Lexicon::decode(&json(
        r#"{"lexicon":1,"id":"a.b.c","description":["no"],"defs":{}}"#,
    ))
    .expect_err("no string");
    assert_eq!(error.path, vec![key("description")]);
    assert_eq!(error.cause, Cause::WrongShape(Shape::Array));
}

#[test]
fn an_item_of_the_wrong_shape_is_rejected_at_its_position() {
    let error = Object::decode(&json(r#"{"properties":{},"required":["a","b",3,"d",5]}"#))
        .expect_err("no string");
    assert_eq!(error.path, vec![key("required"), Step::Index(2)]);
    assert_eq!(error.expected, "a string");
    assert_eq!(error.cause, Cause::WrongShape(Shape::Int));
    assert_eq!(
        error.describe(),
        "at $.required[2]: expected a string, found an integer"
    );
    let error = Union::decode(&json(r#"{"refs":"one"}"#)).expect_err("no array");
    assert_eq!(error.path, vec![key("refs")]);
    assert_eq!(error.expected, "an array");
    assert_eq!(error.cause, Cause::WrongShape(Shape::Str));
    let error = StringTy::decode(&json(r#"{"enum":[null]}"#)).expect_err("no string");
    assert_eq!(error.path, vec![key("enum"), Step::Index(0)]);
    assert_eq!(error.cause, Cause::WrongShape(Shape::Null));
}

#[test]
fn a_position_of_several_digits_is_written_out() {
    let mut items: Vec<Json> = (0..120).map(|i| Json::Str(format!("name{}", i))).collect();
    items.push(Json::Bool(true));
    let value = Json::Object(vec![("refs".to_string(), Json::Array(items))]);
    let error = Union::decode(&value).expect_err("no string");
    assert_eq!(error.path, vec![key("refs"), Step::Index(120)]);
    assert_eq!(
        error.describe(),
        "at $.refs[120]: expected a string, found a boolean"
    );
}

#[test]
fn the_path_leads_through_every_level() {
    let doc = json(
        r##"{"lexicon":1,"id":"a.b.c","defs":{"first":{"type":"token"},"main":{"type":"query","output":{"encoding":"application/json","schema":{"type":"object","properties":{"list":{"type":"array","items":{"type":"string","knownValues":["a",{}]}}}}}}}}"##,
    );
    let error = Lexicon::decode(&doc).expect_err("no string");
    assert_eq!(
        error.path,
        vec![
            key("defs"),
            key("main"),
            key("output"),
            key("schema"),
            key("properties"),
            key("list"),
            key("items"),
            key("knownValues"),
            Step::Index(1),
        ]
    );
    assert_eq!(error.cause, Cause::WrongShape(Shape::Object));
    assert_eq!(
        error.describe(),
        "at $.defs.main.output.schema.properties.list.items.knownValues[1]: expected a string, found an object"
    );
}

#[test]
fn nothing_is_kept_of_a_document_that_is_rejected() {
    let doc = json(
        r#"{"lexicon":1,"id":"a.b.c","defs":{"good":{"type":"token"},"bad":{"type":"token","x":1}}}"#,
    );
    assert!(Lexicon::decode(&doc).is_err());
}

#[test]
fn a_fault_is_put_under_a_step() {
    let inner = DecodeError::here("a string", Cause::WrongShape(Shape::Null));
    assert_eq!(inner.path, vec![]);
    assert_eq!(inner.expected, "a string");
    let outer = inner.clone().under(Step::Index(3)).under(key("names"));
    assert_eq!(outer.path, vec![key("names"), Step::Index(3)]);
    assert_eq!(outer.expected, inner.expected);
    assert_eq!(outer.cause, inner.cause);
    assert_eq!(
        outer.describe(),
        "at $.names[3]: expected a string, found null"
    );
}

#[test]
fn every_cause_is_put_in_words() {
    let words = |cause: Cause| DecodeError::here("something", cause).describe();
    assert_eq!(
        words(Cause::UnknownKey("k".to_string())),
        "at $: expected something, found the unknown key `k`"
    );
    assert_eq!(
        words(Cause::DuplicateKey("k".to_string())),
        "at $: expected something, found the key `k` a second time"
    );
    assert_eq!(
        words(Cause::MissingKey("k")),
        "at $: expected something, found no key `k`"
    );
    assert_eq!(
        words(Cause::WrongShape(Shape::Object)),
        "at $: expected something, found an object"
    );
    assert_eq!(
        words(Cause::OutOfRange(0)),
        "at $: expected something, found the integer 0"
    );
    assert_eq!(
        words(Cause::OutOfRange(-10)),
        "at $: expected something, found the integer -10"
    );
    assert_eq!(
        words(Cause::OutOfRange(9007)),
        "at $: expected something, found the integer 9007"
    );
    assert_eq!(
        words(Cause::UnknownTag("t".to_string())),
        "at $: expected something, found the unknown name `t`"
    );
}

#[test]
fn the_place_and_the_cause_are_texts_of_their_own() {
    let error = Lexicon::decode(&json(
        r#"{"lexicon":1,"id":"a.b.c","defs":{"main":{"type":"query","errors":[{"name":"A"},{"name":1}]}}}"#,
    ))
    .expect_err("no string");
    assert_eq!(error.place(), "$.defs.main.errors[1].name");
    assert_eq!(error.cause.in_words(), "an integer");
    assert_eq!(
        error.describe(),
        format!(
            "at {}: expected {}, found {}",
            error.place(),
            error.expected,
            error.cause.in_words()
        )
    );
    let root = DecodeError::here("an object", Cause::WrongShape(Shape::Null));
    assert_eq!(root.place(), "$");
    assert_eq!(Cause::MissingKey("id").in_words(), "no key `id`");
    assert_eq!(Cause::OutOfRange(-7).in_words(), "the integer -7");
}
