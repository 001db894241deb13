use lexicon_ty::{
    Array, Blob, Boolean, Bytes, Cause, CidLink, Decode, DecodeError, Def, Error, FieldSchema,
    Input, Integer, ItemsSchema, Json, Lexicon, Message, Object, Output, ParamArray, ParamSchema,
    Params, Procedure, Query, Record, Ref, Step, StringTy, Subscription, Token, Union,
};

fn lift(value: &serde_json::Value) -> Json {
    match value {
        serde_json::Value::Null => Json::Null,
        serde_json::Value::Bool(b) => Json::Bool(*b),
        serde_json::Value::Number(n) => {
            if let Some(i) = n.as_i64() {
                Json::Int(i128::from(i))
            } else if let Some(u) = n.as_u64() {
                Json::Int(i128::from(u))
            } else {
                Json::Decimal(n.to_string())
            }
        }
        serde_json::Value::String(s) => Json::Str(s.clone()),
        serde_json::Value::Array(items) => Json::Array(items.iter().map(lift).collect()),
        serde_json::Value::Object(entries) => {
            Json::Object(entries.iter().map(|(k, v)| (k.clone(), lift(v))).collect())
        }
    }
}

fn json(text: &str) -> Json {
    lift(&serde_json::from_str::<serde_json::Value>(text).expect("the text is JSON"))
}

fn key(name: &str) -> Step {
    Step::Key(name.to_string())
}

fn rejected(text: &str) -> DecodeError {
    match Lexicon::decode(&json(text)) {
        Ok(lexicon) => panic!("{} was accepted", lexicon.id),
        Err(error) => error,
    }
}

fn minimal(def: &str) -> String {
    format!(
        r#"{{"lexicon":1,"id":"com.example.thing","defs":{{"main":{}}}}}"#,
        def
    )
}

#[test]
fn unknown_key_at_the_root_fails() {
    let error = rejected(r#"{"lexicon":1,"id":"com.example.thing","defs":{},"revision":2}"#);
    assert_eq!(error.path, vec![]);
    assert_eq!(error.cause, Cause::UnknownKey("revision".to_string()));
    assert_eq!(
        error.expected,
        "one of the keys `lexicon`, `id`, `description`, `defs`"
    );
    assert_eq!(
        error.describe(),
        "at $: expected one of the keys `lexicon`, `id`, `description`, `defs`, found the unknown key `revision`"
    );
}

#[test]
fn unknown_key_in_a_query_fails() {
    let error = rejected(&minimal(
        r#"{"type":"query","input":{"encoding":"text/plain"}}"#,
    ));
    assert_eq!(error.path, vec![key("defs"), key("main")]);
    assert_eq!(error.cause, Cause::UnknownKey("input".to_string()));
    assert_eq!(
        error.expected,
        "one of the keys `description`, `parameters`, `output`, `errors`"
    );
}

#[test]
fn unknown_key_in_a_procedure_fails() {
    let error = rejected(&minimal(
        r#"{"type":"procedure","parameters":{"type":"params","properties":{}}}"#,
    ));
    assert_eq!(error.path, vec![key("defs"), key("main")]);
    assert_eq!(error.cause, Cause::UnknownKey("parameters".to_string()));
    assert_eq!(
        error.expected,
        "one of the keys `description`, `output`, `input`, `errors`"
    );
}

#[test]
fn unknown_key_in_a_subscription_fails() {
    let error = rejected(&minimal(
        r#"{"type":"subscription","output":{"encoding":"text/plain"}}"#,
    ));
    assert_eq!(error.path, vec![key("defs"), key("main")]);
    assert_eq!(error.cause, Cause::UnknownKey("output".to_string()));
    assert_eq!(
        error.expected,
        "one of the keys `description`, `parameters`, `message`, `errors`"
    );
}

#[test]
fn unknown_key_in_a_record_fails() {
    let error = rejected(&minimal(
        r#"{"type":"record","key":"tid","record":{"type":"object","properties":{}},"extra":1}"#,
    ));
    assert_eq!(error.path, vec![key("defs"), key("main")]);
    assert_eq!(error.cause, Cause::UnknownKey("extra".to_string()));
    assert_eq!(
        error.expected,
        "one of the keys `description`, `key`, `record`"
    );
}

#[test]
fn unknown_key_in_the_object_of_a_record_fails() {
    let error = rejected(&minimal(
        r#"{"type":"record","key":"tid","record":{"type":"object","properties":{},"extra":1}}"#,
    ));
    assert_eq!(error.path, vec![key("defs"), key("main"), key("record")]);
    assert_eq!(error.cause, Cause::UnknownKey("extra".to_string()));
    assert_eq!(
        error.expected,
        "one of the keys `description`, `properties`, `required`, `nullable`"
    );
}

#[test]
fn unknown_key_in_an_output_fails() {
    let error = rejected(&minimal(
        r#"{"type":"query","output":{"encoding":"application/json","description":"a body"}}"#,
    ));
    assert_eq!(error.path, vec![key("defs"), key("main"), key("output")]);
    assert_eq!(error.cause, Cause::UnknownKey("description".to_string()));
    assert_eq!(error.expected, "one of the keys `encoding`, `schema`");
    assert_eq!(
        error.describe(),
        "at $.defs.main.output: expected one of the keys `encoding`, `schema`, found the unknown key `description`"
    );
}

#[test]
fn unknown_key_in_an_input_fails() {
    let error = rejected(&minimal(
        r#"{"type":"procedure","input":{"encoding":"application/json","extra":null}}"#,
    ));
    assert_eq!(error.path, vec![key("defs"), key("main"), key("input")]);
    assert_eq!(error.cause, Cause::UnknownKey("extra".to_string()));
    assert_eq!(error.expected, "one of the keys `encoding`, `schema`");
}

#[test]
fn unknown_key_in_an_error_fails() {
    let error = rejected(&minimal(
        r#"{"type":"query","errors":[{"name":"First"},{"name":"Second","code":7}]}"#,
    ));
    assert_eq!(
        error.path,
        vec![key("defs"), key("main"), key("errors"), Step::Index(1)]
    );
    assert_eq!(error.cause, Cause::UnknownKey("code".to_string()));
    assert_eq!(error.expected, "one of the keys `name`, `description`");
    assert_eq!(
        error.describe(),
        "at $.defs.main.errors[1]: expected one of the keys `name`, `description`, found the unknown key `code`"
    );
}

#[test]
fn unknown_key_in_a_message_fails() {
    let error = rejected(&minimal(
        r#"{"type":"subscription","message":{"schema":{"type":"union","refs":[]},"description":"events"}}"#,
    ));
    assert_eq!(error.path, vec![key("defs"), key("main"), key("message")]);
    assert_eq!(error.cause, Cause::UnknownKey("description".to_string()));
    assert_eq!(error.expected, "the key `schema`");
}

#[test]
fn unknown_key_in_params_fails() {
    let error = rejected(&minimal(
        r#"{"type":"query","parameters":{"type":"params","properties":{},"description":"p"}}"#,
    ));
    assert_eq!(
        error.path,
        vec![key("defs"), key("main"), key("parameters")]
    );
    assert_eq!(error.cause, Cause::UnknownKey("description".to_string()));
    assert_eq!(
        error.expected,
        "one of the keys `type`, `required`, `properties`"
    );
}

#[test]
fn unknown_key_in_a_parameter_fails() {
    let error = rejected(&minimal(
        r#"{"type":"query","parameters":{"type":"params","properties":{"limit":{"type":"integer","minimum":1,"step":2}}}}"#,
    ));
    assert_eq!(
        error.path,
        vec![
            key("defs"),
            key("main"),
            key("parameters"),
            key("properties"),
            key("limit")
        ]
    );
    assert_eq!(error.cause, Cause::UnknownKey("step".to_string()));
    assert_eq!(
        error.expected,
        "one of the keys `description`, `minimum`, `maximum`, `default`"
    );
}

#[test]
fn unknown_key_in_a_list_parameter_fails() {
    let error = rejected(&minimal(
        r#"{"type":"query","parameters":{"type":"params","properties":{"tags":{"type":"array","items":{"type":"string"},"unique":true}}}}"#,
    ));
    assert_eq!(
        error.path,
        vec![
            key("defs"),
            key("main"),
            key("parameters"),
            key("properties"),
            key("tags")
        ]
    );
    assert_eq!(error.cause, Cause::UnknownKey("unique".to_string()));
    assert_eq!(
        error.expected,
        "one of the keys `description`, `items`, `minLength`, `maxLength`"
    );
}

#[test]
fn unknown_key_in_a_field_fails() {
    let error = rejected(&minimal(
        r#"{"type":"object","properties":{"flag":{"type":"boolean","const":true,"enum":[true]}}}"#,
    ));
    assert_eq!(
        error.path,
        vec![key("defs"), key("main"), key("properties"), key("flag")]
    );
    assert_eq!(error.cause, Cause::UnknownKey("enum".to_string()));
    assert_eq!(
        error.expected,
        "one of the keys `description`, `default`, `const`"
    );
}

#[test]
fn unknown_key_in_the_items_of_an_array_fails() {
    let error = rejected(&minimal(
        r##"{"type":"array","items":{"type":"ref","ref":"#thing","closed":true}}"##,
    ));
    assert_eq!(error.path, vec![key("defs"), key("main"), key("items")]);
    assert_eq!(error.cause, Cause::UnknownKey("closed".to_string()));
    assert_eq!(error.expected, "one of the keys `description`, `ref`");
}

#[test]
fn unknown_key_in_every_leaf_fails() {
    let leaves = [
        (r#"{"type":"string","pattern":"a*"}"#, "pattern"),
        (r#"{"type":"integer","const":1}"#, "const"),
        (r#"{"type":"boolean","minimum":0}"#, "minimum"),
        (r#"{"type":"bytes","minLength":1}"#, "minLength"),
        (r#"{"type":"cid-link","format":"cid"}"#, "format"),
        (r#"{"type":"blob","accept":[],"maxLength":1}"#, "maxLength"),
        (r#"{"type":"union","refs":[],"open":true}"#, "open"),
        (
            r#"{"type":"array","items":{"type":"unknown"},"uniqueItems":true}"#,
            "uniqueItems",
        ),
    ];
    for (leaf, extra) in leaves {
        let doc = minimal(&format!(
            r#"{{"type":"object","properties":{{"field":{}}}}}"#,
            leaf
        ));
        let error = rejected(&doc);
        assert_eq!(
            error.path,
            vec![key("defs"), key("main"), key("properties"), key("field")],
            "{}",
            leaf
        );
        assert_eq!(
            error.cause,
            Cause::UnknownKey(extra.to_string()),
            "{}",
            leaf
        );
    }
}

#[test]
fn unknown_key_in_a_token_fails() {
    let error = rejected(&minimal(r#"{"type":"token","value":"x"}"#));
    assert_eq!(error.path, vec![key("defs"), key("main")]);
    assert_eq!(error.cause, Cause::UnknownKey("value".to_string()));
    assert_eq!(error.expected, "the key `description`");
}

#[test]
fn the_key_of_the_tag_is_unknown_to_a_node_that_stands_alone() {
    let alone = json(r#"{"type":"boolean","const":true}"#);
    let error = Boolean::decode(&alone).expect_err("`type` is no key of the node");
    assert_eq!(error.cause, Cause::UnknownKey("type".to_string()));
    assert!(FieldSchema::decode(&alone).is_ok());
}

#[test]
fn every_node_that_stands_alone_rejects_an_unknown_key() {
    let extra = json(r#"{"somethingElse":1}"#);
    let unknown = Cause::UnknownKey("somethingElse".to_string());
    assert_eq!(Lexicon::decode(&extra).expect_err("refused").cause, unknown);
    assert_eq!(Record::decode(&extra).expect_err("refused").cause, unknown);
    assert_eq!(Query::decode(&extra).expect_err("refused").cause, unknown);
    assert_eq!(
        Procedure::decode(&extra).expect_err("refused").cause,
        unknown
    );
    assert_eq!(
        Subscription::decode(&extra).expect_err("refused").cause,
        unknown
    );
    assert_eq!(Output::decode(&extra).expect_err("refused").cause, unknown);
    assert_eq!(Input::decode(&extra).expect_err("refused").cause, unknown);
    assert_eq!(Error::decode(&extra).expect_err("refused").cause, unknown);
    assert_eq!(Message::decode(&extra).expect_err("refused").cause, unknown);
    assert_eq!(Boolean::decode(&extra).expect_err("refused").cause, unknown);
    assert_eq!(Integer::decode(&extra).expect_err("refused").cause, unknown);
    assert_eq!(
        StringTy::decode(&extra).expect_err("refused").cause,
        unknown
    );
    assert_eq!(Bytes::decode(&extra).expect_err("refused").cause, unknown);
    assert_eq!(CidLink::decode(&extra).expect_err("refused").cause, unknown);
    assert_eq!(Array::decode(&extra).expect_err("refused").cause, unknown);
    assert_eq!(Object::decode(&extra).expect_err("refused").cause, unknown);
    assert_eq!(Blob::decode(&extra).expect_err("refused").cause, unknown);
    assert_eq!(Params::decode(&extra).expect_err("refused").cause, unknown);
    assert_eq!(
        ParamArray::decode(&extra).expect_err("refused").cause,
        unknown
    );
    assert_eq!(Token::decode(&extra).expect_err("refused").cause, unknown);
    assert_eq!(Ref::decode(&extra).expect_err("refused").cause, unknown);
    assert_eq!(Union::decode(&extra).expect_err("refused").cause, unknown);
}

#[test]
fn every_node_names_its_keys_where_it_rejects_one() {
    let extra = json(r#"{"somethingElse":1}"#);
    let expected = |error: DecodeError, keys: &[&str]| {
        let listed: Vec<String> = keys.iter().map(|key| format!("`{}`", key)).collect();
        let words = if keys.len() == 1 {
            "the key"
        } else {
            "one of the keys"
        };
        assert_eq!(error.expected, format!("{} {}", words, listed.join(", ")));
    };
    expected(
        Lexicon::decode(&extra).expect_err("refused"),
        &["lexicon", "id", "description", "defs"],
    );
    expected(
        Record::decode(&extra).expect_err("refused"),
        &["description", "key", "record"],
    );
    expected(
        Query::decode(&extra).expect_err("refused"),
        &["description", "parameters", "output", "errors"],
    );
    expected(
        Procedure::decode(&extra).expect_err("refused"),
        &["description", "output", "input", "errors"],
    );
    expected(
        Subscription::decode(&extra).expect_err("refused"),
        &["description", "parameters", "message", "errors"],
    );
    expected(
        Output::decode(&extra).expect_err("refused"),
        &["encoding", "schema"],
    );
    expected(
        Input::decode(&extra).expect_err("refused"),
        &["encoding", "schema"],
    );
    expected(
        Error::decode(&extra).expect_err("refused"),
        &["name", "description"],
    );
    expected(Message::decode(&extra).expect_err("refused"), &["schema"]);
    expected(
        Boolean::decode(&extra).expect_err("refused"),
        &["description", "default", "const"],
    );
    expected(
        Integer::decode(&extra).expect_err("refused"),
        &["description", "minimum", "maximum", "default"],
    );
    expected(
        StringTy::decode(&extra).expect_err("refused"),
        &[
            "description",
            "format",
            "maxLength",
            "minLength",
            "maxGraphemes",
            "knownValues",
            "enum",
            "default",
        ],
    );
    expected(
        Bytes::decode(&extra).expect_err("refused"),
        &["description", "maxLength"],
    );
    expected(
        CidLink::decode(&extra).expect_err("refused"),
        &["description"],
    );
    expected(
        Array::decode(&extra).expect_err("refused"),
        &["description", "items", "minLength", "maxLength"],
    );
    expected(
        Object::decode(&extra).expect_err("refused"),
        &["description", "properties", "required", "nullable"],
    );
    expected(
        Blob::decode(&extra).expect_err("refused"),
        &["description", "accept", "maxSize"],
    );
    expected(
        Params::decode(&extra).expect_err("refused"),
        &["type", "required", "properties"],
    );
    expected(
        ParamArray::decode(&extra).expect_err("refused"),
        &["description", "items", "minLength", "maxLength"],
    );
    expected(
        Token::decode(&extra).expect_err("refused"),
        &["description"],
    );
    expected(
        Ref::decode(&extra).expect_err("refused"),
        &["description", "ref"],
    );
    expected(
        Union::decode(&extra).expect_err("refused"),
        &["description", "closed", "refs"],
    );
}

#[test]
fn every_key_that_a_node_names_is_a_key_of_the_node() {
    let allowed = |error: Option<DecodeError>, key: &str| {
        if let Some(error) = error {
            assert_ne!(error.cause, Cause::UnknownKey(key.to_string()), "{}", key);
        }
    };
    let with = |key: &str| Json::Object(vec![(key.to_string(), Json::Null)]);
    for key in ["lexicon", "id", "description", "defs"] {
        allowed(Lexicon::decode(&with(key)).err(), key);
    }
    for key in ["description", "parameters", "output", "errors"] {
        allowed(Query::decode(&with(key)).err(), key);
    }
    for key in ["description", "output", "input", "errors"] {
        allowed(Procedure::decode(&with(key)).err(), key);
    }
    for key in ["description", "parameters", "message", "errors"] {
        allowed(Subscription::decode(&with(key)).err(), key);
    }
    for key in ["description", "key", "record"] {
        allowed(Record::decode(&with(key)).err(), key);
    }
    for key in ["encoding", "schema"] {
        allowed(Output::decode(&with(key)).err(), key);
        allowed(Input::decode(&with(key)).err(), key);
    }
    for key in [
        "description",
        "format",
        "maxLength",
        "minLength",
        "maxGraphemes",
        "knownValues",
        "enum",
        "default",
    ] {
        allowed(StringTy::decode(&with(key)).err(), key);
    }
    for key in ["description", "properties", "required", "nullable"] {
        allowed(Object::decode(&with(key)).err(), key);
    }
    for key in ["description", "items", "minLength", "maxLength"] {
        allowed(Array::decode(&with(key)).err(), key);
        allowed(ParamArray::decode(&with(key)).err(), key);
    }
    for key in ["type", "required", "properties"] {
        allowed(Params::decode(&with(key)).err(), key);
    }
    for key in ["description", "accept", "maxSize"] {
        allowed(Blob::decode(&with(key)).err(), key);
    }
    for key in ["description", "closed", "refs"] {
        allowed(Union::decode(&with(key)).err(), key);
    }
    for key in ["description", "ref"] {
        allowed(Ref::decode(&with(key)).err(), key);
    }
}

#[test]
fn an_unknown_key_fails_wherever_it_stands_among_the_entries() {
    let texts = [
        r#"{"zzz":0,"lexicon":1,"id":"a.b.c","defs":{}}"#,
        r#"{"lexicon":1,"zzz":0,"id":"a.b.c","defs":{}}"#,
        r#"{"lexicon":1,"id":"a.b.c","defs":{},"zzz":0}"#,
    ];
    for text in texts {
        assert_eq!(rejected(text).cause, Cause::UnknownKey("zzz".to_string()));
    }
}

#[test]
fn the_names_of_definitions_and_fields_are_free() {
    let doc = json(
        r#"{"lexicon":1,"id":"a.b.c","defs":{"anyName":{"type":"object","properties":{"type":{"type":"string"},"somethingElse":{"type":"integer"}}}}}"#,
    );
    let lexicon = Lexicon::decode(&doc).expect("names are no keys");
    let Some(Def::Object(object)) = lexicon.defs.get("anyName") else {
        panic!("anyName is no object");
    };
    assert!(object.properties.contains_key("type"));
    assert!(object.properties.contains_key("somethingElse"));
}

#[test]
fn the_unknown_schema_holds_no_key_but_the_tag() {
    let bare = json(r#"{"type":"unknown"}"#);
    assert!(matches!(
        FieldSchema::decode(&bare),
        Ok(FieldSchema::Unknown)
    ));
    assert!(matches!(
        ItemsSchema::decode(&bare),
        Ok(ItemsSchema::Unknown)
    ));
}

#[test]
fn unknown_key_beside_the_tag_unknown_fails() {
    let field = json(r#"{"type":"unknown","extra":1}"#);
    let error = FieldSchema::decode(&field).expect_err("`extra` is no key");
    assert_eq!(error.path, vec![]);
    assert_eq!(error.cause, Cause::UnknownKey("extra".to_string()));
    assert_eq!(error.expected, "no key of its own");
    assert_eq!(
        error.describe(),
        "at $: expected no key of its own, found the unknown key `extra`"
    );
    let error = ItemsSchema::decode(&field).expect_err("`extra` is no key");
    assert_eq!(error.cause, Cause::UnknownKey("extra".to_string()));
    for text in [
        r#"{"type":"unknown","description":"The record itself."}"#,
        r#"{"description":null,"type":"unknown"}"#,
        r#"{"type":"unknown","anything":[1,2]}"#,
    ] {
        assert!(matches!(
            FieldSchema::decode(&json(text)).expect_err("refused").cause,
            Cause::UnknownKey(_)
        ));
        assert!(matches!(
            ItemsSchema::decode(&json(text)).expect_err("refused").cause,
            Cause::UnknownKey(_)
        ));
    }
}

#[test]
fn unknown_key_in_an_unknown_field_fails_the_document() {
    let error = rejected(&minimal(
        r#"{"type":"object","properties":{"value":{"type":"unknown","extra":1}},"required":["value"]}"#,
    ));
    assert_eq!(
        error.path,
        vec![key("defs"), key("main"), key("properties"), key("value")]
    );
    assert_eq!(error.cause, Cause::UnknownKey("extra".to_string()));
    let error = rejected(&minimal(
        r#"{"type":"array","items":{"type":"unknown","extra":1}}"#,
    ));
    assert_eq!(error.path, vec![key("defs"), key("main"), key("items")]);
    assert_eq!(error.cause, Cause::UnknownKey("extra".to_string()));
}

#[test]
fn a_key_that_occurs_twice_fails() {
    let twice = Json::Object(vec![
        ("lexicon".to_string(), Json::Int(1)),
        ("id".to_string(), Json::Str("a.b.c".to_string())),
        ("defs".to_string(), Json::Object(vec![])),
        ("id".to_string(), Json::Str("a.b.c".to_string())),
    ]);
    let error = Lexicon::decode(&twice).expect_err("`id` occurs twice");
    assert_eq!(error.path, vec![]);
    assert_eq!(error.cause, Cause::DuplicateKey("id".to_string()));
    assert_eq!(error.expected, "each key once");
    assert_eq!(
        error.describe(),
        "at $: expected each key once, found the key `id` a second time"
    );
}

#[test]
fn an_unknown_key_before_a_repeated_one_is_the_one_reported() {
    let value = Json::Object(vec![
        ("name".to_string(), Json::Str("A".to_string())),
        ("code".to_string(), Json::Int(1)),
        ("name".to_string(), Json::Str("B".to_string())),
    ]);
    let error = Error::decode(&value).expect_err("refused");
    assert_eq!(error.cause, Cause::UnknownKey("code".to_string()));
    let value = Json::Object(vec![
        ("name".to_string(), Json::Str("A".to_string())),
        ("name".to_string(), Json::Str("B".to_string())),
        ("code".to_string(), Json::Int(1)),
    ]);
    let error = Error::decode(&value).expect_err("refused");
    assert_eq!(error.cause, Cause::DuplicateKey("name".to_string()));
}

#[test]
fn the_keys_are_read_before_the_members() {
    let value = json(r#"{"name":7,"code":1}"#);
    let error = Error::decode(&value).expect_err("refused");
    assert_eq!(error.cause, Cause::UnknownKey("code".to_string()));
    assert_eq!(error.path, vec![]);
}

#[test]
fn the_first_declared_member_that_is_rejected_is_the_one_reported() {
    let value = json(r#"{"description":1,"name":2}"#);
    let error = Error::decode(&value).expect_err("refused");
    assert_eq!(error.path, vec![key("name")]);
    let value = json(r#"{"maximum":"x","minimum":"y","default":"z"}"#);
    let error = Integer::decode(&value).expect_err("refused");
    assert_eq!(error.path, vec![key("minimum")]);
}

#[test]
fn a_definition_named_twice_has_the_later_value() {
    let doc = Json::Object(vec![
        ("lexicon".to_string(), Json::Int(1)),
        ("id".to_string(), Json::Str("a.b.c".to_string())),
        (
            "defs".to_string(),
            Json::Object(vec![
                (
                    "main".to_string(),
                    json(r#"{"type":"token","description":"first"}"#),
                ),
                ("other".to_string(), json(r#"{"type":"token"}"#)),
                (
                    "main".to_string(),
                    json(r#"{"type":"string","description":"second"}"#),
                ),
            ]),
        ),
    ]);
    let lexicon = Lexicon::decode(&doc).expect("names may repeat");
    assert_eq!(lexicon.defs.len(), 2);
    match lexicon.defs.get("main") {
        Some(Def::String(main)) => assert_eq!(main.description.as_deref(), Some("second")),
        other => panic!("main is {:?}", other),
    }
    assert!(matches!(lexicon.defs.get("other"), Some(Def::Token(_))));
}

#[test]
fn a_definition_named_twice_is_rejected_with_its_first_value() {
    let doc = Json::Object(vec![
        ("lexicon".to_string(), Json::Int(1)),
        ("id".to_string(), Json::Str("a.b.c".to_string())),
        (
            "defs".to_string(),
            Json::Object(vec![
                ("main".to_string(), json(r#"{"type":"token","extra":1}"#)),
                ("main".to_string(), json(r#"{"type":"token"}"#)),
            ]),
        ),
    ]);
    let error = Lexicon::decode(&doc).expect_err("the first value is rejected");
    assert_eq!(error.path, vec![key("defs"), key("main")]);
    assert_eq!(error.cause, Cause::UnknownKey("extra".to_string()));
}

#[test]
fn a_parameter_is_what_a_parameter_may_be() {
    let params = json(
        r#"{"type":"params","properties":{"a":{"type":"boolean"},"b":{"type":"integer"},"c":{"type":"string"},"d":{"type":"array","items":{"type":"string"}}}}"#,
    );
    let params = Params::decode(&params).expect("the parameters are valid");
    assert!(matches!(
        params.properties.get("a"),
        Some(ParamSchema::Boolean(_))
    ));
    assert!(matches!(
        params.properties.get("b"),
        Some(ParamSchema::Integer(_))
    ));
    assert!(matches!(
        params.properties.get("c"),
        Some(ParamSchema::String(_))
    ));
    assert!(matches!(
        params.properties.get("d"),
        Some(ParamSchema::Array(_))
    ));
}
