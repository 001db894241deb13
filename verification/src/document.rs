//! The document: a version, an identifier, and the definitions by name.

use vstd::prelude::*;
use crate::collect::lemma_map;
use crate::decode::{accepted, rejected, Decode};
use crate::endpoint::{
    Procedure, ProcedureView, Query, QueryView, Subscription, SubscriptionView,
};
use crate::fault::{DecodeError, DecodeErrorView};
use crate::field::{Array, ArrayView, Object, ObjectView};
use crate::json::{Entries, Json, JsonView};
use crate::leaf::{StringTy, StringTyView, Token, TokenView};
use crate::member::{
    decode_optional, decode_required, lemma_member_fault_placed, lemma_stray_in_member, lists,
    optional_member, required_member, stray_in_member,
};
use crate::name_map::NameMap;
use crate::node::{
    decode_node, is_held, lemma_node_accepted, lemma_node_fault_placed,
    lemma_node_stray_key_rejected, member, node, node_has_stray_key, texts, Node,
};
use crate::tag::{lemma_tag_fault_placed, read_tag, refuse_tag, tag_of, unknown_tag};
use crate::text::same_text;

verus! {

/// The schema of a record: an object, and nothing else.
#[derive(Debug, Clone)]
pub enum RecordSchema {
    Object(Object),
}

/// The mathematical value of a [`RecordSchema`].
pub enum RecordSchemaView {
    Object(ObjectView),
}

/// The vocabulary of the tags of a [`RecordSchema`].
pub const RECORD_TAGS: &'static str = "the tag `object`";

impl DeepView for RecordSchema {
    type V = RecordSchemaView;

    open spec fn deep_view(&self) -> RecordSchemaView {
        match self {
            RecordSchema::Object(node) => RecordSchemaView::Object(node.deep_view()),
        }
    }
}

impl Decode for RecordSchema {
    /// A [`RecordSchema`] is decoded from an object whose tag selects the node,
    /// which is then decoded from the same object. A tag outside the vocabulary
    /// selects nothing.
    open spec fn decoding(value: JsonView) -> Result<RecordSchemaView, DecodeErrorView> {
        match tag_of(value, RECORD_TAGS@) {
            Err(fault) => Err(fault),
            Ok(tag) => if tag == "object"@ {
                match node::<Object>(value, true) {
                    Ok(node) => Ok(RecordSchemaView::Object(node)),
                    Err(fault) => Err(fault),
                }
            } else {
                Err(unknown_tag(tag, RECORD_TAGS@))
            },
        }
    }

    /// The value holds a stray key where the node that its tag selects does.
    open spec fn has_stray_key(value: JsonView) -> bool {
        tag_of(value, RECORD_TAGS@) matches Ok(tag) && tag == "object"@
            && node_has_stray_key::<Object>(value, true)
    }

    fn decode(value: &Json) -> (res: Result<RecordSchema, DecodeError>) {
        let tag = read_tag(value, RECORD_TAGS)?;
        if same_text(tag, "object") {
            Ok(RecordSchema::Object(decode_node::<Object>(value, true)?))
        } else {
            Err(refuse_tag(tag, RECORD_TAGS))
        }
    }

    proof fn lemma_fault_placed(value: JsonView) {
        lemma_tag_fault_placed(value, RECORD_TAGS@);
        lemma_node_fault_placed::<Object>(value, true);
    }

    proof fn lemma_stray_key_rejected(value: JsonView) {
        Self::lemma_tag_selects(value);
        lemma_node_stray_key_rejected::<Object>(value, true);
    }
}

impl RecordSchema {
    /// An object that stands as the schema of a record has the required and the nullable
    /// fields that its source lists: a field is required exactly when the
    /// array under `required` holds its name, and nullable exactly when the
    /// array under `nullable` does.
    pub proof fn lemma_object_lists(value: JsonView, name: Seq<char>)
        requires
            RecordSchema::decoding(value) matches Ok(RecordSchemaView::Object(_)),
        ensures
            value matches JsonView::Object(entries) && {
                &&& RecordSchema::decoding(value)->Ok_0->Object_0.is_required(name) <==> lists(
                    entries,
                    "required"@,
                    name,
                )
                &&& RecordSchema::decoding(value)->Ok_0->Object_0.is_nullable(name) <==> lists(
                    entries,
                    "nullable"@,
                    name,
                )
            },
    {
        Self::lemma_variant_bears_tag(value);
        Self::lemma_tag_selects(value);
        Object::lemma_lists_from_source(value, true, name);
    }

    /// The tag decides the variant, and nothing else does: a value with the tag
    /// of a variant is decoded as the node of that variant, and is rejected
    /// where that node rejects it.
    pub proof fn lemma_tag_selects(value: JsonView)
        ensures
            tag_of(value, RECORD_TAGS@) == accepted("object"@)
                ==> RecordSchema::decoding(value) == (match node::<Object>(value, true) {
                Ok(node) => Ok(RecordSchemaView::Object(node)),
                Err(fault) => Err(fault),
            }),
    {
    }

    /// A value that is decoded as a variant bears the tag of that variant.
    pub proof fn lemma_variant_bears_tag(value: JsonView)
        ensures
            match RecordSchema::decoding(value) {
                Ok(RecordSchemaView::Object(_)) => tag_of(value, RECORD_TAGS@) == accepted(
                    "object"@,
                ),
                Err(_) => true,
            },
    {
    }

    /// A tag outside the vocabulary is rejected, whatever else the value holds.
    pub proof fn lemma_unknown_tag_rejected(value: JsonView, tag: Seq<char>)
        requires
            tag_of(value, RECORD_TAGS@) == accepted(tag),
            tag != "object"@,
        ensures
            RecordSchema::decoding(value) == rejected::<RecordSchemaView>(
                unknown_tag(tag, RECORD_TAGS@),
            ),
    {
    }

    /// A value without a tag is rejected as the lack of the tag is.
    pub proof fn lemma_tag_needed(value: JsonView)
        ensures
            tag_of(value, RECORD_TAGS@) matches Err(fault) ==> RecordSchema::decoding(value)
                == rejected::<RecordSchemaView>(fault),
    {
    }
}

/// An object that can be stored in a repository.
#[derive(Debug, Clone)]
pub struct Record {
    /// A description for people.
    pub description: Option<String>,
    /// The kind of key under which the record is stored.
    pub key: String,
    /// The schema of the record.
    pub record: RecordSchema,
}

/// The mathematical value of a [`Record`].
pub struct RecordView {
    pub description: Option<Seq<char>>,
    pub key: Seq<char>,
    pub record: RecordSchemaView,
}

/// What is expected of the keys of a [`Record`].
pub const RECORD_KEYS: &'static str = "one of the keys `description`, `key`, `record`";

impl DeepView for Record {
    type V = RecordView;

    open spec fn deep_view(&self) -> RecordView {
        RecordView {
            description: self.description.deep_view(),
            key: self.key.deep_view(),
            record: self.record.deep_view(),
        }
    }
}

impl Node for Record {
    open spec fn keys() -> Seq<Seq<char>> {
        seq!["description"@, "key"@, "record"@]
    }

    open spec fn keys_in_words() -> Seq<char> {
        RECORD_KEYS@
    }

    open spec fn members(entries: Entries) -> Result<RecordView, DecodeErrorView> {
        let description = optional_member::<String>(entries, "description"@);
        let key = required_member::<String>(entries, "key"@);
        let record = required_member::<RecordSchema>(entries, "record"@);
        if description is Err {
            Err(description->Err_0)
        } else if key is Err {
            Err(key->Err_0)
        } else if record is Err {
            Err(record->Err_0)
        } else {
            Ok(
                RecordView {
                    description: description->Ok_0,
                    key: key->Ok_0,
                    record: record->Ok_0,
                },
            )
        }
    }

    open spec fn has_stray_member(entries: Entries) -> bool {
        stray_in_member::<String>(entries, "description"@)
        || stray_in_member::<String>(entries, "key"@)
        || stray_in_member::<RecordSchema>(entries, "record"@)
    }

    fn has_key(key: &str) -> (res: bool) {
        let keys = ["description", "key", "record"];
        assert(texts(keys@) =~= Self::keys());
        is_held(&keys, key)
    }

    fn describe_keys() -> (res: &'static str) {
        RECORD_KEYS
    }

    fn decode_members(entries: &Vec<(String, Json)>) -> (res: Result<Record, DecodeError>) {
        let description = decode_optional::<String>(entries, "description")?;
        let key = decode_required::<String>(entries, "key")?;
        let record = decode_required::<RecordSchema>(entries, "record")?;
        Ok(Record { description, key, record })
    }

    proof fn lemma_member_fault_placed(entries: Entries) {
        lemma_member_fault_placed::<String>(entries, "description"@);
        lemma_member_fault_placed::<String>(entries, "key"@);
        lemma_member_fault_placed::<RecordSchema>(entries, "record"@);
    }

    proof fn lemma_stray_member_rejected(entries: Entries) {
        lemma_stray_in_member::<String>(entries, "description"@);
        lemma_stray_in_member::<String>(entries, "key"@);
        lemma_stray_in_member::<RecordSchema>(entries, "record"@);
    }
}

impl Decode for Record {
    /// A [`Record`] that stands alone is decoded from an object with its keys
    /// and no others.
    open spec fn decoding(value: JsonView) -> Result<RecordView, DecodeErrorView> {
        node::<Record>(value, false)
    }

    open spec fn has_stray_key(value: JsonView) -> bool {
        node_has_stray_key::<Record>(value, false)
    }

    fn decode(value: &Json) -> (res: Result<Record, DecodeError>) {
        decode_node::<Record>(value, false)
    }

    proof fn lemma_fault_placed(value: JsonView) {
        lemma_node_fault_placed::<Record>(value, false);
    }

    proof fn lemma_stray_key_rejected(value: JsonView) {
        lemma_node_stray_key_rejected::<Record>(value, false);
    }
}

impl Record {
    /// The entries of an object give a [`Record`] exactly when they give each
    /// of its members: one member that is rejected rejects the node. Each
    /// member of the node is then what the entry under its key gives.
    pub proof fn lemma_members(entries: Entries)
        ensures
            <Record as Node>::members(entries) is Ok <==> {
                &&& optional_member::<String>(entries, "description"@) is Ok
                &&& required_member::<String>(entries, "key"@) is Ok
                &&& required_member::<RecordSchema>(entries, "record"@) is Ok
            },
            <Record as Node>::members(entries) matches Ok(node) ==> {
                &&& optional_member::<String>(entries, "description"@) == accepted(node.description)
                &&& required_member::<String>(entries, "key"@) == accepted(node.key)
                &&& required_member::<RecordSchema>(entries, "record"@) == accepted(node.record)
            },
    {
    }
}

/// A definition: what a name of the document stands for.
#[derive(Debug, Clone)]
pub enum Def {
    Query(Query),
    Procedure(Procedure),
    Subscription(Subscription),
    Record(Record),
    String(StringTy),
    Token(Token),
    Object(Object),
    Array(Array),
}

/// The mathematical value of a [`Def`].
pub enum DefView {
    Query(QueryView),
    Procedure(ProcedureView),
    Subscription(SubscriptionView),
    Record(RecordView),
    String(StringTyView),
    Token(TokenView),
    Object(ObjectView),
    Array(ArrayView),
}

/// The vocabulary of the tags of a [`Def`].
pub const DEF_TAGS: &'static str =
    "one of the tags `query`, `procedure`, `subscription`, `record`, `string`, `token`, \
    `object`, `array`";

impl DeepView for Def {
    type V = DefView;

    open spec fn deep_view(&self) -> DefView {
        match self {
            Def::Query(node) => DefView::Query(node.deep_view()),
            Def::Procedure(node) => DefView::Procedure(node.deep_view()),
            Def::Subscription(node) => DefView::Subscription(node.deep_view()),
            Def::Record(node) => DefView::Record(node.deep_view()),
            Def::String(node) => DefView::String(node.deep_view()),
            Def::Token(node) => DefView::Token(node.deep_view()),
            Def::Object(node) => DefView::Object(node.deep_view()),
            Def::Array(node) => DefView::Array(node.deep_view()),
        }
    }
}

impl Decode for Def {
    /// A [`Def`] is decoded from an object whose tag selects the node, which is
    /// then decoded from the same object. A tag outside the vocabulary selects
    /// nothing.
    open spec fn decoding(value: JsonView) -> Result<DefView, DecodeErrorView> {
        match tag_of(value, DEF_TAGS@) {
            Err(fault) => Err(fault),
            Ok(tag) => if tag == "query"@ {
                match node::<Query>(value, true) {
                    Ok(node) => Ok(DefView::Query(node)),
                    Err(fault) => Err(fault),
                }
            } else if tag == "procedure"@ {
                match node::<Procedure>(value, true) {
                    Ok(node) => Ok(DefView::Procedure(node)),
                    Err(fault) => Err(fault),
                }
            } else if tag == "subscription"@ {
                match node::<Subscription>(value, true) {
                    Ok(node) => Ok(DefView::Subscription(node)),
                    Err(fault) => Err(fault),
                }
            } else if tag == "record"@ {
                match node::<Record>(value, true) {
                    Ok(node) => Ok(DefView::Record(node)),
                    Err(fault) => Err(fault),
                }
            } else if tag == "string"@ {
                match node::<StringTy>(value, true) {
                    Ok(node) => Ok(DefView::String(node)),
                    Err(fault) => Err(fault),
                }
            } else if tag == "token"@ {
                match node::<Token>(value, true) {
                    Ok(node) => Ok(DefView::Token(node)),
                    Err(fault) => Err(fault),
                }
            } else if tag == "object"@ {
                match node::<Object>(value, true) {
                    Ok(node) => Ok(DefView::Object(node)),
                    Err(fault) => Err(fault),
                }
            } else if tag == "array"@ {
                match node::<Array>(value, true) {
                    Ok(node) => Ok(DefView::Array(node)),
                    Err(fault) => Err(fault),
                }
            } else {
                Err(unknown_tag(tag, DEF_TAGS@))
            },
        }
    }

    /// The value holds a stray key where the node that its tag selects does.
    open spec fn has_stray_key(value: JsonView) -> bool {
        tag_of(value, DEF_TAGS@) matches Ok(tag) && (
            (tag == "query"@ && node_has_stray_key::<Query>(value, true))
            || (tag == "procedure"@ && node_has_stray_key::<Procedure>(value, true))
            || (tag == "subscription"@ && node_has_stray_key::<Subscription>(value, true))
            || (tag == "record"@ && node_has_stray_key::<Record>(value, true))
            || (tag == "string"@ && node_has_stray_key::<StringTy>(value, true))
            || (tag == "token"@ && node_has_stray_key::<Token>(value, true))
            || (tag == "object"@ && node_has_stray_key::<Object>(value, true))
            || (tag == "array"@ && node_has_stray_key::<Array>(value, true))
        )
    }

    fn decode(value: &Json) -> (res: Result<Def, DecodeError>) {
        let tag = read_tag(value, DEF_TAGS)?;
        if same_text(tag, "query") {
            Ok(Def::Query(decode_node::<Query>(value, true)?))
        } else if same_text(tag, "procedure") {
            Ok(Def::Procedure(decode_node::<Procedure>(value, true)?))
        } else if same_text(tag, "subscription") {
            Ok(Def::Subscription(decode_node::<Subscription>(value, true)?))
        } else if same_text(tag, "record") {
            Ok(Def::Record(decode_node::<Record>(value, true)?))
        } else if same_text(tag, "string") {
            Ok(Def::String(decode_node::<StringTy>(value, true)?))
        } else if same_text(tag, "token") {
            Ok(Def::Token(decode_node::<Token>(value, true)?))
        } else if same_text(tag, "object") {
            Ok(Def::Object(decode_node::<Object>(value, true)?))
        } else if same_text(tag, "array") {
            Ok(Def::Array(decode_node::<Array>(value, true)?))
        } else {
            Err(refuse_tag(tag, DEF_TAGS))
        }
    }

    proof fn lemma_fault_placed(value: JsonView) {
        lemma_tag_fault_placed(value, DEF_TAGS@);
        lemma_node_fault_placed::<Query>(value, true);
        lemma_node_fault_placed::<Procedure>(value, true);
        lemma_node_fault_placed::<Subscription>(value, true);
        lemma_node_fault_placed::<Record>(value, true);
        lemma_node_fault_placed::<StringTy>(value, true);
        lemma_node_fault_placed::<Token>(value, true);
        lemma_node_fault_placed::<Object>(value, true);
        lemma_node_fault_placed::<Array>(value, true);
    }

    proof fn lemma_stray_key_rejected(value: JsonView) {
        Self::lemma_tag_selects(value);
        lemma_node_stray_key_rejected::<Query>(value, true);
        lemma_node_stray_key_rejected::<Procedure>(value, true);
        lemma_node_stray_key_rejected::<Subscription>(value, true);
        lemma_node_stray_key_rejected::<Record>(value, true);
        lemma_node_stray_key_rejected::<StringTy>(value, true);
        lemma_node_stray_key_rejected::<Token>(value, true);
        lemma_node_stray_key_rejected::<Object>(value, true);
        lemma_node_stray_key_rejected::<Array>(value, true);
    }
}

impl Def {
    /// An object that stands as a definition has the required and the nullable
    /// fields that its source lists: a field is required exactly when the
    /// array under `required` holds its name, and nullable exactly when the
    /// array under `nullable` does.
    pub proof fn lemma_object_lists(value: JsonView, name: Seq<char>)
        requires
            Def::decoding(value) matches Ok(DefView::Object(_)),
        ensures
            value matches JsonView::Object(entries) && {
                &&& Def::decoding(value)->Ok_0->Object_0.is_required(name) <==> lists(
                    entries,
                    "required"@,
                    name,
                )
                &&& Def::decoding(value)->Ok_0->Object_0.is_nullable(name) <==> lists(
                    entries,
                    "nullable"@,
                    name,
                )
            },
    {
        Self::lemma_variant_bears_tag(value);
        Self::lemma_tag_selects(value);
        Object::lemma_lists_from_source(value, true, name);
    }

    /// The tag decides the variant, and nothing else does: a value with the tag
    /// of a variant is decoded as the node of that variant, and is rejected
    /// where that node rejects it.
    pub proof fn lemma_tag_selects(value: JsonView)
        ensures
            tag_of(value, DEF_TAGS@) == accepted("query"@)
                ==> Def::decoding(value) == (match node::<Query>(value, true) {
                Ok(node) => Ok(DefView::Query(node)),
                Err(fault) => Err(fault),
            }),
            tag_of(value, DEF_TAGS@) == accepted("procedure"@)
                ==> Def::decoding(value) == (match node::<Procedure>(value, true) {
                Ok(node) => Ok(DefView::Procedure(node)),
                Err(fault) => Err(fault),
            }),
            tag_of(value, DEF_TAGS@) == accepted("subscription"@)
                ==> Def::decoding(value) == (match node::<Subscription>(value, true) {
                Ok(node) => Ok(DefView::Subscription(node)),
                Err(fault) => Err(fault),
            }),
            tag_of(value, DEF_TAGS@) == accepted("record"@)
                ==> Def::decoding(value) == (match node::<Record>(value, true) {
                Ok(node) => Ok(DefView::Record(node)),
                Err(fault) => Err(fault),
            }),
            tag_of(value, DEF_TAGS@) == accepted("string"@)
                ==> Def::decoding(value) == (match node::<StringTy>(value, true) {
                Ok(node) => Ok(DefView::String(node)),
                Err(fault) => Err(fault),
            }),
            tag_of(value, DEF_TAGS@) == accepted("token"@)
                ==> Def::decoding(value) == (match node::<Token>(value, true) {
                Ok(node) => Ok(DefView::Token(node)),
                Err(fault) => Err(fault),
            }),
            tag_of(value, DEF_TAGS@) == accepted("object"@)
                ==> Def::decoding(value) == (match node::<Object>(value, true) {
                Ok(node) => Ok(DefView::Object(node)),
                Err(fault) => Err(fault),
            }),
            tag_of(value, DEF_TAGS@) == accepted("array"@)
                ==> Def::decoding(value) == (match node::<Array>(value, true) {
                Ok(node) => Ok(DefView::Array(node)),
                Err(fault) => Err(fault),
            }),
    {
        reveal_strlit("query");
        reveal_strlit("procedure");
        reveal_strlit("subscription");
        reveal_strlit("record");
        reveal_strlit("string");
        reveal_strlit("token");
        reveal_strlit("object");
        reveal_strlit("array");
        assert("query"@.len() == 5 && "query"@[0] == 'q');
        assert("procedure"@.len() == 9);
        assert("subscription"@.len() == 12);
        assert("record"@.len() == 6 && "record"@[0] == 'r');
        assert("string"@.len() == 6 && "string"@[0] == 's');
        assert("token"@.len() == 5 && "token"@[0] == 't');
        assert("object"@.len() == 6 && "object"@[0] == 'o');
        assert("array"@.len() == 5 && "array"@[0] == 'a');
    }

    /// A value that is decoded as a variant bears the tag of that variant.
    pub proof fn lemma_variant_bears_tag(value: JsonView)
        ensures
            match Def::decoding(value) {
                Ok(DefView::Query(_)) => tag_of(value, DEF_TAGS@) == accepted("query"@),
                Ok(DefView::Procedure(_)) => tag_of(value, DEF_TAGS@) == accepted("procedure"@),
                Ok(DefView::Subscription(_)) => tag_of(value, DEF_TAGS@) == accepted(
                    "subscription"@,
                ),
                Ok(DefView::Record(_)) => tag_of(value, DEF_TAGS@) == accepted("record"@),
                Ok(DefView::String(_)) => tag_of(value, DEF_TAGS@) == accepted("string"@),
                Ok(DefView::Token(_)) => tag_of(value, DEF_TAGS@) == accepted("token"@),
                Ok(DefView::Object(_)) => tag_of(value, DEF_TAGS@) == accepted("object"@),
                Ok(DefView::Array(_)) => tag_of(value, DEF_TAGS@) == accepted("array"@),
                Err(_) => true,
            },
    {
    }

    /// A tag outside the vocabulary is rejected, whatever else the value holds.
    pub proof fn lemma_unknown_tag_rejected(value: JsonView, tag: Seq<char>)
        requires
            tag_of(value, DEF_TAGS@) == accepted(tag),
            tag != "query"@,
            tag != "procedure"@,
            tag != "subscription"@,
            tag != "record"@,
            tag != "string"@,
            tag != "token"@,
            tag != "object"@,
            tag != "array"@,
        ensures
            Def::decoding(value) == rejected::<DefView>(
                unknown_tag(tag, DEF_TAGS@),
            ),
    {
    }

    /// A value without a tag is rejected as the lack of the tag is.
    pub proof fn lemma_tag_needed(value: JsonView)
        ensures
            tag_of(value, DEF_TAGS@) matches Err(fault) ==> Def::decoding(value)
                == rejected::<DefView>(fault),
    {
    }
}

/// A schema document.
#[derive(Debug, Clone)]
pub struct Lexicon {
    /// The version of the schema language.
    pub lexicon: u32,
    /// The namespaced identifier of the document.
    pub id: String,
    /// A description for people.
    pub description: Option<String>,
    /// The definitions, by name.
    pub defs: NameMap<Def>,
}

/// The mathematical value of a [`Lexicon`].
pub struct LexiconView {
    pub lexicon: u32,
    pub id: Seq<char>,
    pub description: Option<Seq<char>>,
    pub defs: Map<Seq<char>, DefView>,
}

/// What is expected of the keys of a [`Lexicon`].
pub const LEXICON_KEYS: &'static str = "one of the keys `lexicon`, `id`, `description`, `defs`";

impl DeepView for Lexicon {
    type V = LexiconView;

    open spec fn deep_view(&self) -> LexiconView {
        LexiconView {
            lexicon: self.lexicon.deep_view(),
            id: self.id.deep_view(),
            description: self.description.deep_view(),
            defs: self.defs.deep_view(),
        }
    }
}

impl Node for Lexicon {
    open spec fn keys() -> Seq<Seq<char>> {
        seq!["lexicon"@, "id"@, "description"@, "defs"@]
    }

    open spec fn keys_in_words() -> Seq<char> {
        LEXICON_KEYS@
    }

    open spec fn members(entries: Entries) -> Result<LexiconView, DecodeErrorView> {
        let lexicon = required_member::<u32>(entries, "lexicon"@);
        let id = required_member::<String>(entries, "id"@);
        let description = optional_member::<String>(entries, "description"@);
        let defs = required_member::<NameMap<Def>>(entries, "defs"@);
        if lexicon is Err {
            Err(lexicon->Err_0)
        } else if id is Err {
            Err(id->Err_0)
        } else if description is Err {
            Err(description->Err_0)
        } else if defs is Err {
            Err(defs->Err_0)
        } else {
            Ok(
                LexiconView {
                    lexicon: lexicon->Ok_0,
                    id: id->Ok_0,
                    description: description->Ok_0,
                    defs: defs->Ok_0,
                },
            )
        }
    }

    open spec fn has_stray_member(entries: Entries) -> bool {
        stray_in_member::<u32>(entries, "lexicon"@)
        || stray_in_member::<String>(entries, "id"@)
        || stray_in_member::<String>(entries, "description"@)
        || stray_in_member::<NameMap<Def>>(entries, "defs"@)
    }

    fn has_key(key: &str) -> (res: bool) {
        let keys = ["lexicon", "id", "description", "defs"];
        assert(texts(keys@) =~= Self::keys());
        is_held(&keys, key)
    }

    fn describe_keys() -> (res: &'static str) {
        LEXICON_KEYS
    }

    fn decode_members(entries: &Vec<(String, Json)>) -> (res: Result<Lexicon, DecodeError>) {
        let lexicon = decode_required::<u32>(entries, "lexicon")?;
        let id = decode_required::<String>(entries, "id")?;
        let description = decode_optional::<String>(entries, "description")?;
        let defs = decode_required::<NameMap<Def>>(entries, "defs")?;
        Ok(Lexicon { lexicon, id, description, defs })
    }

    proof fn lemma_member_fault_placed(entries: Entries) {
        lemma_member_fault_placed::<u32>(entries, "lexicon"@);
        lemma_member_fault_placed::<String>(entries, "id"@);
        lemma_member_fault_placed::<String>(entries, "description"@);
        lemma_member_fault_placed::<NameMap<Def>>(entries, "defs"@);
    }

    proof fn lemma_stray_member_rejected(entries: Entries) {
        lemma_stray_in_member::<u32>(entries, "lexicon"@);
        lemma_stray_in_member::<String>(entries, "id"@);
        lemma_stray_in_member::<String>(entries, "description"@);
        lemma_stray_in_member::<NameMap<Def>>(entries, "defs"@);
    }
}

impl Decode for Lexicon {
    /// A [`Lexicon`] that stands alone is decoded from an object with its keys
    /// and no others.
    open spec fn decoding(value: JsonView) -> Result<LexiconView, DecodeErrorView> {
        node::<Lexicon>(value, false)
    }

    open spec fn has_stray_key(value: JsonView) -> bool {
        node_has_stray_key::<Lexicon>(value, false)
    }

    fn decode(value: &Json) -> (res: Result<Lexicon, DecodeError>) {
        decode_node::<Lexicon>(value, false)
    }

    proof fn lemma_fault_placed(value: JsonView) {
        lemma_node_fault_placed::<Lexicon>(value, false);
    }

    proof fn lemma_stray_key_rejected(value: JsonView) {
        lemma_node_stray_key_rejected::<Lexicon>(value, false);
    }
}

impl Lexicon {
    /// The entries of an object give a [`Lexicon`] exactly when they give each
    /// of its members: one member that is rejected rejects the node. Each
    /// member of the node is then what the entry under its key gives.
    pub proof fn lemma_members(entries: Entries)
        ensures
            <Lexicon as Node>::members(entries) is Ok <==> {
                &&& required_member::<u32>(entries, "lexicon"@) is Ok
                &&& required_member::<String>(entries, "id"@) is Ok
                &&& optional_member::<String>(entries, "description"@) is Ok
                &&& required_member::<NameMap<Def>>(entries, "defs"@) is Ok
            },
            <Lexicon as Node>::members(entries) matches Ok(node) ==> {
                &&& required_member::<u32>(entries, "lexicon"@) == accepted(node.lexicon)
                &&& required_member::<String>(entries, "id"@) == accepted(node.id)
                &&& optional_member::<String>(entries, "description"@) == accepted(node.description)
                &&& required_member::<NameMap<Def>>(entries, "defs"@) == accepted(node.defs)
            },
    {
    }

    /// The version and the identifier of a decoded document are those that
    /// the source gives, verbatim: the integer under `lexicon` and the string
    /// under `id`.
    pub proof fn lemma_verbatim(value: JsonView)
        requires
            Lexicon::decoding(value) is Ok,
        ensures
            value matches JsonView::Object(entries) && {
                &&& member(entries, "lexicon"@) matches Some(JsonView::Int(version))
                    && Lexicon::decoding(value)->Ok_0.lexicon == version
                &&& member(entries, "id"@) matches Some(JsonView::Str(id)) && Lexicon::decoding(
                    value,
                )->Ok_0.id == id
            },
    {
        lemma_node_accepted::<Lexicon>(value, false);
    }

    /// A document is accepted only if every definition in it is: the value of
    /// each entry under `defs` is accepted as a definition.
    pub proof fn lemma_definitions_accepted(value: JsonView)
        requires
            Lexicon::decoding(value) is Ok,
        ensures
            value matches JsonView::Object(entries) && member(entries, "defs"@) matches Some(
                JsonView::Object(defs),
            ) && forall|i: int|
                0 <= i < defs.len() ==> Def::decoding((#[trigger] defs[i]).1) is Ok,
    {
        lemma_node_accepted::<Lexicon>(value, false);
        if let JsonView::Object(entries) = value {
            lemma_map::<Def>(member(entries, "defs"@)->Some_0);
        }
    }
}

} // verus!
