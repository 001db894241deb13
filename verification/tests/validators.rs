use lexicon_ty::{
    Array, Blob, Boolean, Bytes, CidLink, Decode, FieldSchema, Integer, ItemsSchema, Json, NameMap,
    Object, ParamSchema, Params, Ref, StringTy, Union,
};

fn lift(value: &serde_json::Value) -> Json {
    match value {
        serde_json::Value::Null => Json::Null,
        serde_json::Value::Bool(b) => Json::Bool(*b),
        serde_json::Value::Number(n) => {
            if let Some(i) = n.as_i64() {
                Json::Int(i128::from(i))
            } else if let Some(u) = n.as_u64() {
                Json::Int(i128::from(u))
            } else {
                Json::Decimal(n.to_string())
            }
        }
        serde_json::Value::String(s) => Json::Str(s.clone()),
        serde_json::Value::Array(items) => Json::Array(items.iter().map(lift).collect()),
        serde_json::Value::Object(entries) => {
            Json::Object(entries.iter().map(|(k, v)| (k.clone(), lift(v))).collect())
        }
    }
}

fn json(text: &str) -> Json {
    lift(&serde_json::from_str::<serde_json::Value>(text).expect("the text is JSON"))
}

fn string() -> StringTy {
    StringTy {
        description: None,
        format: None,
        max_length: None,
        min_length: None,
        max_graphemes: None,
        known_values: None,
        enum_values: None,
        default: None,
    }
}

fn integer() -> Integer {
    Integer {
        description: None,
        minimum: None,
        maximum: None,
        default: None,
    }
}

fn object(fields: Vec<(&str, FieldSchema)>) -> Object {
    let mut properties = NameMap::new();
    for (name, schema) in fields {
        properties.insert(name.to_string(), schema);
    }
    Object {
        description: None,
        properties,
        required: None,
        nullable: None,
    }
}

fn names(list: &[&str]) -> Option<Vec<String>> {
    Some(list.iter().map(|name| name.to_string()).collect())
}

#[test]
fn without_a_list_no_field_is_required() {
    let node = object(vec![("x", FieldSchema::Unknown)]);
    for name in ["x", "y", "", "required", "X"] {
        assert!(!node.is_required(name), "{}", name);
    }
}

#[test]
fn the_listed_field_is_required_and_no_other() {
    let mut node = object(vec![
        ("x", FieldSchema::Unknown),
        ("y", FieldSchema::Unknown),
    ]);
    node.required = names(&["x"]);
    assert!(node.is_required("x"));
    for name in ["y", "", "X", "x ", " x", "xx"] {
        assert!(!node.is_required(name), "{}", name);
    }
}

#[test]
fn without_a_list_no_field_is_nullable() {
    let node = object(vec![("x", FieldSchema::Unknown)]);
    for name in ["x", "y", "", "nullable"] {
        assert!(!node.is_nullable(name), "{}", name);
    }
}

#[test]
fn the_listed_field_is_nullable_and_no_other() {
    let mut node = object(vec![
        ("x", FieldSchema::Unknown),
        ("y", FieldSchema::Unknown),
    ]);
    node.nullable = names(&["x"]);
    assert!(node.is_nullable("x"));
    for name in ["y", "", "X", "x ", "xx"] {
        assert!(!node.is_nullable(name), "{}", name);
    }
}

#[test]
fn the_two_lists_do_not_mix() {
    let mut node = object(vec![]);
    node.required = names(&["a", "b"]);
    node.nullable = names(&["b", "c"]);
    assert!(node.is_required("a") && !node.is_nullable("a"));
    assert!(node.is_required("b") && node.is_nullable("b"));
    assert!(!node.is_required("c") && node.is_nullable("c"));
    assert!(!node.is_required("d") && !node.is_nullable("d"));
}

#[test]
fn an_empty_list_requires_nothing() {
    let mut node = object(vec![("x", FieldSchema::Unknown)]);
    node.required = names(&[]);
    node.nullable = names(&[]);
    assert!(!node.is_required("x"));
    assert!(!node.is_nullable("x"));
}

#[test]
fn a_name_need_not_be_a_field_to_be_listed() {
    let node = Object::decode(&json(
        r#"{"properties": {}, "required": ["ghost"], "nullable": ["phantom"]}"#,
    ))
    .expect("decoding does not hold the lists against the fields");
    assert!(node.is_required("ghost"));
    assert!(node.is_nullable("phantom"));
    assert!(node.properties.is_empty());
}

#[test]
fn a_name_is_found_anywhere_in_the_list() {
    let mut node = object(vec![]);
    node.required = names(&["first", "middle", "middle", "last"]);
    assert!(node.is_required("first"));
    assert!(node.is_required("middle"));
    assert!(node.is_required("last"));
    assert!(!node.is_required("none"));
}

#[test]
fn the_required_parameters_are_the_listed_ones() {
    let mut properties = NameMap::new();
    properties.insert("x".to_string(), ParamSchema::String(string()));
    properties.insert("y".to_string(), ParamSchema::Integer(integer()));
    let mut node = Params {
        ty: "params".to_string(),
        required: None,
        properties,
    };
    assert!(!node.is_required("x"));
    assert!(!node.is_required("y"));
    node.required = names(&["x"]);
    assert!(node.is_required("x"));
    assert!(!node.is_required("y"));
    assert!(!node.is_required(""));
}

#[test]
fn a_string_field_can_hold_a_reference() {
    let node = object(vec![("subject", FieldSchema::String(string()))]);
    assert!(node.has_reference_field());
}

#[test]
fn an_integer_field_cannot_hold_a_reference() {
    let node = object(vec![("count", FieldSchema::Integer(integer()))]);
    assert!(!node.has_reference_field());
}

#[test]
fn an_object_without_fields_has_no_reference_field() {
    assert!(!object(vec![]).has_reference_field());
}

#[test]
fn one_string_among_the_fields_is_enough() {
    let node = object(vec![
        ("count", FieldSchema::Integer(integer())),
        (
            "flag",
            FieldSchema::Boolean(Boolean {
                description: None,
                default: None,
                constant: None,
            }),
        ),
        ("subject", FieldSchema::String(string())),
        ("rest", FieldSchema::Unknown),
    ]);
    assert!(node.has_reference_field());
    let node = object(vec![
        ("subject", FieldSchema::String(string())),
        ("count", FieldSchema::Integer(integer())),
    ]);
    assert!(node.has_reference_field());
}

#[test]
fn a_ref_and_a_union_do_not_count_as_reference_fields() {
    let node = object(vec![
        (
            "link",
            FieldSchema::Ref(Ref {
                description: None,
                reference: "#other".to_string(),
            }),
        ),
        (
            "choice",
            FieldSchema::Union(Union {
                description: None,
                closed: false,
                refs: vec!["#a".to_string()],
            }),
        ),
        (
            "list",
            FieldSchema::Array(Array {
                description: None,
                items: ItemsSchema::String(string()),
                min_length: None,
                max_length: None,
            }),
        ),
        (
            "raw",
            FieldSchema::Bytes(Bytes {
                description: None,
                max_length: None,
            }),
        ),
        ("cid", FieldSchema::CidLink(CidLink { description: None })),
        (
            "file",
            FieldSchema::Blob(Blob {
                description: None,
                accept: None,
                max_size: None,
            }),
        ),
        ("any", FieldSchema::Unknown),
    ]);
    assert!(!node.has_reference_field());
}

#[test]
fn only_the_string_variant_can_be_a_reference() {
    assert!(FieldSchema::String(string()).can_be_reference());
    assert!(!FieldSchema::Integer(integer()).can_be_reference());
    assert!(!FieldSchema::Unknown.can_be_reference());
    assert!(!FieldSchema::Ref(Ref {
        description: None,
        reference: "x".to_string()
    })
    .can_be_reference());
    assert!(!FieldSchema::Union(Union {
        description: None,
        closed: true,
        refs: vec![]
    })
    .can_be_reference());
    assert!(!FieldSchema::Bytes(Bytes {
        description: None,
        max_length: Some(1)
    })
    .can_be_reference());
    assert!(!FieldSchema::CidLink(CidLink { description: None }).can_be_reference());
    assert!(!FieldSchema::Blob(Blob {
        description: None,
        accept: None,
        max_size: None
    })
    .can_be_reference());
    assert!(!FieldSchema::Boolean(Boolean {
        description: None,
        default: None,
        constant: None
    })
    .can_be_reference());
}

#[test]
fn a_field_that_was_replaced_counts_as_what_it_is_now() {
    let mut properties = NameMap::new();
    properties.insert("subject".to_string(), FieldSchema::String(string()));
    properties.insert("subject".to_string(), FieldSchema::Integer(integer()));
    let node = Object {
        description: None,
        properties,
        required: None,
        nullable: None,
    };
    assert_eq!(node.properties.len(), 1);
    assert!(!node.has_reference_field());
}

#[test]
fn the_validators_read_a_decoded_object() {
    let node = Object::decode(&json(
        r#"{"properties": {"subject": {"type": "string", "format": "did"}, "count": {"type": "integer"}}, "required": ["subject"], "nullable": ["count"]}"#,
    ))
    .expect("an object");
    assert!(node.has_reference_field());
    assert!(node.is_required("subject"));
    assert!(!node.is_required("count"));
    assert!(node.is_nullable("count"));
    assert!(!node.is_nullable("subject"));
    let node = Object::decode(&json(r#"{"properties": {"count": {"type": "integer"}}}"#))
        .expect("an object");
    assert!(!node.has_reference_field());
}

#[test]
fn an_object_at_any_place_has_the_lists_of_its_source() {
    let object = r#"{"type":"object","properties":{"a":{"type":"string"},"b":{"type":"integer"}},"required":["a","ghost"],"nullable":["b"]}"#;
    let doc = format!(
        r#"{{"lexicon":1,"id":"a.b.c","defs":{{"plain":{object},"stored":{{"type":"record","key":"tid","record":{object}}},"read":{{"type":"query","output":{{"encoding":"application/json","schema":{object}}}}},"write":{{"type":"procedure","input":{{"encoding":"application/json","schema":{object}}}}}}}}}"#,
        object = object
    );
    let lexicon = lexicon_ty::Lexicon::decode(&json(&doc)).expect("the document is valid");
    let expect = |found: &Object| {
        assert!(found.is_required("a"));
        assert!(found.is_required("ghost"));
        assert!(!found.is_required("b"));
        assert!(!found.is_required(""));
        assert!(found.is_nullable("b"));
        assert!(!found.is_nullable("a"));
        assert!(!found.is_nullable("ghost"));
    };
    match lexicon.defs.get("plain") {
        Some(lexicon_ty::Def::Object(found)) => expect(found),
        other => panic!("plain is {:?}", other),
    }
    match lexicon.defs.get("stored") {
        Some(lexicon_ty::Def::Record(record)) => {
            let lexicon_ty::RecordSchema::Object(found) = &record.record;
            expect(found);
        }
        other => panic!("stored is {:?}", other),
    }
    match lexicon.defs.get("read") {
        Some(lexicon_ty::Def::Query(query)) => {
            match query.output.as_ref().and_then(|o| o.schema.as_ref()) {
                Some(lexicon_ty::OutputSchema::Object(found)) => expect(found),
                other => panic!("the body is {:?}", other),
            }
        }
        other => panic!("read is {:?}", other),
    }
    match lexicon.defs.get("write") {
        Some(lexicon_ty::Def::Procedure(procedure)) => {
            match procedure.input.as_ref().and_then(|i| i.schema.as_ref()) {
                Some(lexicon_ty::InputSchema::Object(found)) => expect(found),
                other => panic!("the body is {:?}", other),
            }
        }
        other => panic!("write is {:?}", other),
    }
}

#[test]
fn a_list_under_null_is_no_list() {
    let node = Object::decode(&json(
        r#"{"properties": {}, "required": null, "nullable": null}"#,
    ))
    .expect("an object");
    assert_eq!(node.required, None);
    assert_eq!(node.nullable, None);
    assert!(!node.is_required("a"));
    assert!(!node.is_nullable("a"));
}
