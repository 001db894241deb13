use lexicon_ty::{
    Decode, Def, FieldSchema, ItemsSchema, Json, Lexicon, MessageSchema, OutputSchema, ParamSchema,
    RecordSchema, StringFormat,
};

fn lift(value: &serde_json::Value) -> Json {
    match value {
        serde_json::Value::Null => Json::Null,
        serde_json::Value::Bool(b) => Json::Bool(*b),
        serde_json::Value::Number(n) => {
            if let Some(i) = n.as_i64() {
                Json::Int(i128::from(i))
            } else if let Some(u) = n.as_u64() {
                Json::Int(i128::from(u))
            } else {
                Json::Decimal(n.to_string())
            }
        }
        serde_json::Value::String(s) => Json::Str(s.clone()),
        serde_json::Value::Array(items) => Json::Array(items.iter().map(lift).collect()),
        serde_json::Value::Object(entries) => {
            Json::Object(entries.iter().map(|(k, v)| (k.clone(), lift(v))).collect())
        }
    }
}

fn json(text: &str) -> Json {
    lift(&serde_json::from_str::<serde_json::Value>(text).expect("the text is JSON"))
}

const GET_RECORD: &str = r##"{
  "lexicon": 1,
  "id": "com.atproto.repo.getRecord",
  "defs": {
    "main": {
      "type": "query",
      "description": "Get a single record from a repository.",
      "parameters": {
        "type": "params",
        "required": ["repo", "collection", "rkey"],
        "properties": {
          "repo": {
            "type": "string",
            "format": "at-identifier",
            "description": "The handle or DID of the repo."
          },
          "collection": { "type": "string", "format": "nsid" },
          "rkey": { "type": "string", "description": "The Record Key." },
          "cid": { "type": "string", "format": "cid" }
        }
      },
      "output": {
        "encoding": "application/json",
        "schema": {
          "type": "object",
          "required": ["uri", "value"],
          "properties": {
            "uri": { "type": "string", "format": "at-uri" },
            "cid": { "type": "string", "format": "cid" },
            "value": { "type": "unknown" }
          }
        }
      },
      "errors": [{ "name": "RecordNotFound" }]
    }
  }
}"##;

const CREATE_RECORD: &str = r##"{
  "lexicon": 1,
  "id": "com.atproto.repo.createRecord",
  "defs": {
    "main": {
      "type": "procedure",
      "description": "Create a single new repository record.",
      "input": {
        "encoding": "application/json",
        "schema": {
          "type": "object",
          "required": ["repo", "collection", "record"],
          "properties": {
            "repo": { "type": "string", "format": "at-identifier" },
            "collection": { "type": "string", "format": "nsid" },
            "rkey": { "type": "string", "maxLength": 15 },
            "validate": { "type": "boolean", "default": true },
            "record": { "type": "unknown" },
            "swapCommit": { "type": "string", "format": "cid" }
          }
        }
      },
      "output": {
        "encoding": "application/json",
        "schema": {
          "type": "object",
          "required": ["uri", "cid"],
          "properties": {
            "uri": { "type": "string", "format": "at-uri" },
            "cid": { "type": "string", "format": "cid" }
          }
        }
      },
      "errors": [
        {
          "name": "InvalidSwap",
          "description": "Indicates that 'swapCommit' didn't match current repo commit."
        }
      ]
    }
  }
}"##;

const SUBSCRIBE_REPOS: &str = r##"{
  "lexicon": 1,
  "id": "com.atproto.sync.subscribeRepos",
  "description": "Repository event stream.",
  "defs": {
    "main": {
      "type": "subscription",
      "description": "Subscribe to repo updates.",
      "parameters": {
        "type": "params",
        "properties": {
          "cursor": { "type": "integer", "description": "The last known event seq number." }
        }
      },
      "message": {
        "schema": {
          "type": "union",
          "refs": ["#commit", "#handle", "#info"]
        }
      },
      "errors": [{ "name": "FutureCursor" }, { "name": "ConsumerTooSlow" }]
    },
    "commit": {
      "type": "object",
      "required": ["seq", "rebase", "tooBig", "repo", "commit", "rev", "since", "blocks", "ops", "blobs", "time"],
      "nullable": ["prev", "since"],
      "properties": {
        "seq": { "type": "integer" },
        "rebase": { "type": "boolean" },
        "tooBig": { "type": "boolean" },
        "repo": { "type": "string", "format": "did" },
        "commit": { "type": "cid-link" },
        "prev": { "type": "cid-link" },
        "rev": { "type": "string" },
        "since": { "type": "string" },
        "blocks": { "type": "bytes", "description": "CAR file.", "maxLength": 1000000 },
        "ops": {
          "type": "array",
          "items": { "type": "ref", "ref": "#repoOp" },
          "maxLength": 200
        },
        "blobs": { "type": "array", "items": { "type": "cid-link" } },
        "time": { "type": "string", "format": "datetime" }
      }
    },
    "handle": {
      "type": "object",
      "required": ["seq", "did", "handle", "time"],
      "properties": {
        "seq": { "type": "integer" },
        "did": { "type": "string", "format": "did" },
        "handle": { "type": "string", "format": "handle" },
        "time": { "type": "string", "format": "datetime" }
      }
    },
    "info": {
      "type": "object",
      "required": ["name"],
      "properties": {
        "name": { "type": "string", "knownValues": ["OutdatedCursor"] },
        "message": { "type": "string" }
      }
    },
    "repoOp": {
      "type": "object",
      "description": "A repo operation.",
      "required": ["action", "path", "cid"],
      "nullable": ["cid"],
      "properties": {
        "action": { "type": "string", "knownValues": ["create", "update", "delete"] },
        "path": { "type": "string" },
        "cid": { "type": "cid-link" }
      }
    }
  }
}"##;

const FEED_POST: &str = r##"{
  "lexicon": 1,
  "id": "app.bsky.feed.post",
  "defs": {
    "main": {
      "type": "record",
      "key": "tid",
      "record": {
        "type": "object",
        "required": ["text", "createdAt"],
        "properties": {
          "text": { "type": "string", "maxLength": 3000, "maxGraphemes": 300 },
          "entities": {
            "type": "array",
            "description": "Deprecated: replaced by app.bsky.richtext.facet.",
            "items": { "type": "ref", "ref": "#entity" }
          },
          "facets": {
            "type": "array",
            "items": { "type": "ref", "ref": "app.bsky.richtext.facet" }
          },
          "reply": { "type": "ref", "ref": "#replyRef" },
          "embed": {
            "type": "union",
            "refs": [
              "app.bsky.embed.images",
              "app.bsky.embed.external",
              "app.bsky.embed.record",
              "app.bsky.embed.recordWithMedia"
            ]
          },
          "langs": {
            "type": "array",
            "maxLength": 3,
            "items": { "type": "string", "format": "language" }
          },
          "labels": {
            "type": "union",
            "refs": ["com.atproto.label.defs#selfLabels"]
          },
          "createdAt": { "type": "string", "format": "datetime" }
        }
      }
    },
    "replyRef": {
      "type": "object",
      "required": ["root", "parent"],
      "properties": {
        "root": { "type": "ref", "ref": "com.atproto.repo.strongRef" },
        "parent": { "type": "ref", "ref": "com.atproto.repo.strongRef" }
      }
    },
    "entity": {
      "type": "object",
      "description": "Deprecated: use facets instead.",
      "required": ["index", "type", "value"],
      "properties": {
        "index": { "type": "ref", "ref": "#textSlice" },
        "type": { "type": "string", "description": "Expected values are 'mention' and 'link'." },
        "value": { "type": "string" }
      }
    },
    "textSlice": {
      "type": "object",
      "required": ["start", "end"],
      "properties": {
        "start": { "type": "integer", "minimum": 0 },
        "end": { "type": "integer", "minimum": 0 }
      }
    }
  }
}"##;

const ACTOR_PROFILE: &str = r##"{
  "lexicon": 1,
  "id": "app.bsky.actor.profile",
  "defs": {
    "main": {
      "type": "record",
      "key": "literal:self",
      "record": {
        "type": "object",
        "properties": {
          "displayName": { "type": "string", "maxGraphemes": 64, "maxLength": 640 },
          "description": { "type": "string", "maxGraphemes": 256, "maxLength": 2560 },
          "avatar": {
            "type": "blob",
            "accept": ["image/png", "image/jpeg"],
            "maxSize": 1000000
          },
          "banner": {
            "type": "blob",
            "accept": ["image/png", "image/jpeg"],
            "maxSize": 1000000
          },
          "labels": {
            "type": "union",
            "refs": ["com.atproto.label.defs#selfLabels"]
          }
        }
      }
    }
  }
}"##;

const MODERATION_DEFS: &str = r##"{
  "lexicon": 1,
  "id": "com.atproto.moderation.defs",
  "defs": {
    "reasonType": {
      "type": "string",
      "knownValues": [
        "com.atproto.moderation.defs#reasonSpam",
        "com.atproto.moderation.defs#reasonViolation",
        "com.atproto.moderation.defs#reasonOther"
      ]
    },
    "reasonSpam": {
      "type": "token",
      "description": "Spam: frequent unwanted promotion, replies, mentions"
    },
    "reasonViolation": {
      "type": "token",
      "description": "Direct violation of server rules, laws, terms of service"
    },
    "reasonOther": { "type": "token", "description": "Other: reports not falling under another report category" }
  }
}"##;

const ACTOR_PREFERENCES: &str = r##"{
  "lexicon": 1,
  "id": "app.bsky.actor.defs",
  "description": "A reference to an actor in the network.",
  "defs": {
    "preferences": {
      "type": "array",
      "items": {
        "type": "union",
        "refs": ["#adultContentPref", "#contentLabelPref", "#savedFeedsPref"]
      }
    },
    "adultContentPref": {
      "type": "object",
      "required": ["enabled"],
      "properties": { "enabled": { "type": "boolean", "default": false } }
    },
    "contentLabelPref": {
      "type": "object",
      "required": ["label", "visibility"],
      "properties": {
        "label": { "type": "string" },
        "visibility": { "type": "string", "knownValues": ["show", "warn", "hide"] }
      }
    },
    "savedFeedsPref": {
      "type": "object",
      "required": ["pinned", "saved"],
      "properties": {
        "pinned": { "type": "array", "items": { "type": "string", "format": "at-uri" } },
        "saved": { "type": "array", "items": { "type": "string", "format": "at-uri" } }
      }
    }
  }
}"##;

const SEARCH_ACTORS: &str = r##"{
  "lexicon": 1,
  "id": "app.bsky.actor.searchActors",
  "defs": {
    "main": {
      "type": "query",
      "description": "Find actors matching search criteria.",
      "parameters": {
        "type": "params",
        "properties": {
          "term": { "type": "string" },
          "limit": { "type": "integer", "minimum": 1, "maximum": 100, "default": 25 },
          "cursor": { "type": "string" },
          "exact": { "type": "boolean", "default": false },
          "feeds": { "type": "array", "items": { "type": "string", "format": "at-uri" }, "maxLength": 5 }
        }
      },
      "output": {
        "encoding": "application/json",
        "schema": { "type": "ref", "ref": "#result" }
      }
    },
    "result": {
      "type": "object",
      "required": ["actors"],
      "properties": {
        "cursor": { "type": "string" },
        "actors": {
          "type": "array",
          "items": { "type": "ref", "ref": "app.bsky.actor.defs#profileView" }
        }
      }
    }
  }
}"##;

const CORPUS: [&str; 8] = [
    GET_RECORD,
    CREATE_RECORD,
    SUBSCRIBE_REPOS,
    FEED_POST,
    ACTOR_PROFILE,
    MODERATION_DEFS,
    ACTOR_PREFERENCES,
    SEARCH_ACTORS,
];

#[test]
fn test_parse_files() {
    for text in CORPUS {
        let source: serde_json::Value = serde_json::from_str(text).expect("the text is JSON");
        let lexicon = match Lexicon::decode(&lift(&source)) {
            Ok(lexicon) => lexicon,
            Err(error) => panic!("{} - {}", source["id"], error.describe()),
        };
        assert_eq!(Some(lexicon.id.as_str()), source["id"].as_str());
        assert_eq!(Some(u64::from(lexicon.lexicon)), source["lexicon"].as_u64());
        assert_eq!(
            lexicon.description.as_deref(),
            source.get("description").and_then(|d| d.as_str())
        );
        let defs = source["defs"].as_object().expect("defs is an object");
        assert_eq!(lexicon.defs.len(), defs.len());
        for name in defs.keys() {
            assert!(
                lexicon.defs.contains_key(name),
                "{} lacks {}",
                lexicon.id,
                name
            );
        }
    }
}

#[test]
fn end_to_end_query_with_output() {
    let doc = json(
        r#"{"lexicon":1,"id":"com.example.getThing","defs":{"main":{"type":"query","output":{"encoding":"application/json"}}}}"#,
    );
    let lexicon = Lexicon::decode(&doc).expect("the document is valid");
    assert_eq!(lexicon.lexicon, 1);
    assert_eq!(lexicon.id, "com.example.getThing");
    assert_eq!(lexicon.description, None);
    assert_eq!(lexicon.defs.len(), 1);
    match lexicon.defs.get("main") {
        Some(Def::Query(query)) => {
            let output = query.output.as_ref().expect("the query has an output");
            assert_eq!(output.encoding, "application/json");
            assert!(output.schema.is_none());
            assert!(query.parameters.is_none());
            assert!(query.errors.is_none());
            assert_eq!(query.description, None);
        }
        other => panic!("main is {:?}", other),
    }
}

#[test]
fn get_record_is_decoded_in_full() {
    let lexicon = Lexicon::decode(&json(GET_RECORD)).expect("the document is valid");
    let Some(Def::Query(query)) = lexicon.defs.get("main") else {
        panic!("main is no query");
    };
    assert_eq!(
        query.description.as_deref(),
        Some("Get a single record from a repository.")
    );
    let params = query.parameters.as_ref().expect("the query has parameters");
    assert_eq!(params.ty, "params");
    assert_eq!(
        params.required,
        Some(vec![
            "repo".to_string(),
            "collection".to_string(),
            "rkey".to_string()
        ])
    );
    assert_eq!(params.properties.len(), 4);
    assert!(params.is_required("repo"));
    assert!(!params.is_required("cid"));
    match params.properties.get("repo") {
        Some(ParamSchema::String(repo)) => {
            assert_eq!(repo.format, Some(StringFormat::AtIdentifier));
            assert_eq!(
                repo.description.as_deref(),
                Some("The handle or DID of the repo.")
            );
        }
        other => panic!("repo is {:?}", other),
    }
    let output = query.output.as_ref().expect("the query has an output");
    assert_eq!(output.encoding, "application/json");
    let Some(OutputSchema::Object(body)) = &output.schema else {
        panic!("the body is no object");
    };
    assert!(body.is_required("uri"));
    assert!(body.is_required("value"));
    assert!(!body.is_required("cid"));
    assert!(!body.is_nullable("cid"));
    assert!(body.has_reference_field());
    assert!(matches!(
        body.properties.get("value"),
        Some(FieldSchema::Unknown)
    ));
    let errors = query.errors.as_ref().expect("the query has errors");
    assert_eq!(errors.len(), 1);
    assert_eq!(errors[0].name, "RecordNotFound");
    assert_eq!(errors[0].description, None);
}

#[test]
fn subscribe_repos_is_decoded_in_full() {
    let lexicon = Lexicon::decode(&json(SUBSCRIBE_REPOS)).expect("the document is valid");
    assert_eq!(
        lexicon.description.as_deref(),
        Some("Repository event stream.")
    );
    assert_eq!(lexicon.defs.len(), 5);
    let Some(Def::Subscription(subscription)) = lexicon.defs.get("main") else {
        panic!("main is no subscription");
    };
    let message = subscription
        .message
        .as_ref()
        .expect("the subscription has a message");
    let MessageSchema::Union(union) = &message.schema;
    assert!(!union.closed);
    assert_eq!(union.refs, vec!["#commit", "#handle", "#info"]);
    let errors = subscription
        .errors
        .as_ref()
        .expect("the subscription has errors");
    assert_eq!(errors.len(), 2);
    assert_eq!(errors[1].name, "ConsumerTooSlow");
    let Some(Def::Object(commit)) = lexicon.defs.get("commit") else {
        panic!("commit is no object");
    };
    assert_eq!(commit.properties.len(), 12);
    assert!(commit.is_nullable("prev"));
    assert!(commit.is_nullable("since"));
    assert!(!commit.is_nullable("seq"));
    assert!(commit.is_required("seq"));
    assert!(!commit.is_required("prev"));
    match commit.properties.get("blocks") {
        Some(FieldSchema::Bytes(blocks)) => {
            assert_eq!(blocks.max_length, Some(1_000_000));
            assert_eq!(blocks.description.as_deref(), Some("CAR file."));
        }
        other => panic!("blocks is {:?}", other),
    }
    match commit.properties.get("ops") {
        Some(FieldSchema::Array(ops)) => {
            assert_eq!(ops.max_length, Some(200));
            assert_eq!(ops.min_length, None);
            match &ops.items {
                ItemsSchema::Ref(op) => assert_eq!(op.reference, "#repoOp"),
                other => panic!("the items are {:?}", other),
            }
        }
        other => panic!("ops is {:?}", other),
    }
    assert!(matches!(
        commit.properties.get("blobs"),
        Some(FieldSchema::Array(blobs)) if matches!(blobs.items, ItemsSchema::CidLink(_))
    ));
}

#[test]
fn feed_post_is_decoded_in_full() {
    let lexicon = Lexicon::decode(&json(FEED_POST)).expect("the document is valid");
    let Some(Def::Record(record)) = lexicon.defs.get("main") else {
        panic!("main is no record");
    };
    assert_eq!(record.key, "tid");
    let RecordSchema::Object(post) = &record.record;
    assert!(post.is_required("text"));
    match post.properties.get("text") {
        Some(FieldSchema::String(text)) => {
            assert_eq!(text.max_length, Some(3000));
            assert_eq!(text.max_graphemes, Some(300));
            assert_eq!(text.min_length, None);
        }
        other => panic!("text is {:?}", other),
    }
    match post.properties.get("langs") {
        Some(FieldSchema::Array(langs)) => {
            assert_eq!(langs.max_length, Some(3));
            assert!(matches!(
                &langs.items,
                ItemsSchema::String(item) if item.format == Some(StringFormat::Language)
            ));
        }
        other => panic!("langs is {:?}", other),
    }
    match post.properties.get("embed") {
        Some(FieldSchema::Union(embed)) => assert_eq!(embed.refs.len(), 4),
        other => panic!("embed is {:?}", other),
    }
    let Some(Def::Object(slice)) = lexicon.defs.get("textSlice") else {
        panic!("textSlice is no object");
    };
    match slice.properties.get("start") {
        Some(FieldSchema::Integer(start)) => {
            assert_eq!(start.minimum, Some(0));
            assert_eq!(start.maximum, None);
        }
        other => panic!("start is {:?}", other),
    }
    assert!(!slice.has_reference_field());
}
