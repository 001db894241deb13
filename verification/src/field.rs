//! The schemas of the fields of an object, and the composite nodes that hold
//! them. Each position allows its own choice of nodes: an item of an array is
//! never an array, and a field is never an object.

use vstd::prelude::*;
use crate::decode::{accepted, rejected, Decode};
use crate::fault::{DecodeError, DecodeErrorView};
use crate::json::{Entries, Json, JsonView};
use crate::leaf::{
    Blob, BlobView, Boolean, BooleanView, Bytes, BytesView, CidLink, CidLinkView, Integer,
    IntegerView, Ref, RefView, StringTy, StringTyView, Union, UnionView,
};
use crate::member::{
    decode_optional, decode_required, lemma_member_fault_placed, lemma_optional_list,
    lemma_stray_in_member, lists, optional_member, required_member, stray_in_member,
};
use crate::name_map::NameMap;
use crate::node::{
    decode_node, is_held, lemma_node_accepted, lemma_node_fault_placed,
    lemma_node_stray_key_rejected, node, node_has_stray_key, texts, NoMembers, Node,
};
use crate::tag::{lemma_tag_fault_placed, read_tag, refuse_tag, tag_of, unknown_tag};
use crate::text::{is_listed, same_text};

verus! {

/// The schema of the items of an array.
#[derive(Debug, Clone, PartialEq, Eq)]
pub enum ItemsSchema {
    /// Its tag is `cid-link`.
    CidLink(CidLink),
    Integer(Integer),
    Ref(Ref),
    String(StringTy),
    Union(Union),
    /// Any value: the schema says nothing of the items. Its node holds no key
    /// but the tag.
    Unknown,
}

/// The mathematical value of an [`ItemsSchema`].
pub enum ItemsSchemaView {
    CidLink(CidLinkView),
    Integer(IntegerView),
    Ref(RefView),
    String(StringTyView),
    Union(UnionView),
    Unknown,
}

/// The vocabulary of the tags of an [`ItemsSchema`].
pub const ITEM_TAGS: &'static str =
    "one of the tags `cid-link`, `integer`, `ref`, `string`, `union`, `unknown`";

impl DeepView for ItemsSchema {
    type V = ItemsSchemaView;

    open spec fn deep_view(&self) -> ItemsSchemaView {
        match self {
            ItemsSchema::CidLink(node) => ItemsSchemaView::CidLink(node.deep_view()),
            ItemsSchema::Integer(node) => ItemsSchemaView::Integer(node.deep_view()),
            ItemsSchema::Ref(node) => ItemsSchemaView::Ref(node.deep_view()),
            ItemsSchema::String(node) => ItemsSchemaView::String(node.deep_view()),
            ItemsSchema::Union(node) => ItemsSchemaView::Union(node.deep_view()),
            ItemsSchema::Unknown => ItemsSchemaView::Unknown,
        }
    }
}

impl Decode for ItemsSchema {
    /// An [`ItemsSchema`] is decoded from an object whose tag selects the node,
    /// which is then decoded from the same object. A tag outside the vocabulary
    /// selects nothing.
    open spec fn decoding(value: JsonView) -> Result<ItemsSchemaView, DecodeErrorView> {
        match tag_of(value, ITEM_TAGS@) {
            Err(fault) => Err(fault),
            Ok(tag) => if tag == "cid-link"@ {
                match node::<CidLink>(value, true) {
                    Ok(node) => Ok(ItemsSchemaView::CidLink(node)),
                    Err(fault) => Err(fault),
                }
            } else if tag == "integer"@ {
                match node::<Integer>(value, true) {
                    Ok(node) => Ok(ItemsSchemaView::Integer(node)),
                    Err(fault) => Err(fault),
                }
            } else if tag == "ref"@ {
                match node::<Ref>(value, true) {
                    Ok(node) => Ok(ItemsSchemaView::Ref(node)),
                    Err(fault) => Err(fault),
                }
            } else if tag == "string"@ {
                match node::<StringTy>(value, true) {
                    Ok(node) => Ok(ItemsSchemaView::String(node)),
                    Err(fault) => Err(fault),
                }
            } else if tag == "union"@ {
                match node::<Union>(value, true) {
                    Ok(node) => Ok(ItemsSchemaView::Union(node)),
                    Err(fault) => Err(fault),
                }
            } else if tag == "unknown"@ {
                match node::<NoMembers>(value, true) {
                    Ok(_) => Ok(ItemsSchemaView::Unknown),
                    Err(fault) => Err(fault),
                }
            } else {
                Err(unknown_tag(tag, ITEM_TAGS@))
            },
        }
    }

    /// The value holds a stray key where the node that its tag selects does.
    open spec fn has_stray_key(value: JsonView) -> bool {
        tag_of(value, ITEM_TAGS@) matches Ok(tag) && (
            (tag == "cid-link"@ && node_has_stray_key::<CidLink>(value, true))
            || (tag == "integer"@ && node_has_stray_key::<Integer>(value, true))
            || (tag == "ref"@ && node_has_stray_key::<Ref>(value, true))
            || (tag == "string"@ && node_has_stray_key::<StringTy>(value, true))
            || (tag == "union"@ && node_has_stray_key::<Union>(value, true))
            || (tag == "unknown"@ && node_has_stray_key::<NoMembers>(value, true))
        )
    }

    fn decode(value: &Json) -> (res: Result<ItemsSchema, DecodeError>) {
        let tag = read_tag(value, ITEM_TAGS)?;
        if same_text(tag, "cid-link") {
            Ok(ItemsSchema::CidLink(decode_node::<CidLink>(value, true)?))
        } else if same_text(tag, "integer") {
            Ok(ItemsSchema::Integer(decode_node::<Integer>(value, true)?))
        } else if same_text(tag, "ref") {
            Ok(ItemsSchema::Ref(decode_node::<Ref>(value, true)?))
        } else if same_text(tag, "string") {
            Ok(ItemsSchema::String(decode_node::<StringTy>(value, true)?))
        } else if same_text(tag, "union") {
            Ok(ItemsSchema::Union(decode_node::<Union>(value, true)?))
        } else if same_text(tag, "unknown") {
            decode_node::<NoMembers>(value, true)?;
            Ok(ItemsSchema::Unknown)
        } else {
            Err(refuse_tag(tag, ITEM_TAGS))
        }
    }

    proof fn lemma_fault_placed(value: JsonView) {
        lemma_tag_fault_placed(value, ITEM_TAGS@);
        lemma_node_fault_placed::<CidLink>(value, true);
        lemma_node_fault_placed::<Integer>(value, true);
        lemma_node_fault_placed::<Ref>(value, true);
        lemma_node_fault_placed::<StringTy>(value, true);
        lemma_node_fault_placed::<Union>(value, true);
        lemma_node_fault_placed::<NoMembers>(value, true);
    }

    proof fn lemma_stray_key_rejected(value: JsonView) {
        Self::lemma_tag_selects(value);
        lemma_node_stray_key_rejected::<CidLink>(value, true);
        lemma_node_stray_key_rejected::<Integer>(value, true);
        lemma_node_stray_key_rejected::<Ref>(value, true);
        lemma_node_stray_key_rejected::<StringTy>(value, true);
        lemma_node_stray_key_rejected::<Union>(value, true);
        lemma_node_stray_key_rejected::<NoMembers>(value, true);
    }
}

impl ItemsSchema {
    /// The tag decides the variant, and nothing else does: a value with the tag
    /// of a variant is decoded as the node of that variant, and is rejected
    /// where that node rejects it.
    pub proof fn lemma_tag_selects(value: JsonView)
        ensures
            tag_of(value, ITEM_TAGS@) == accepted("cid-link"@)
                ==> ItemsSchema::decoding(value) == (match node::<CidLink>(value, true) {
                Ok(node) => Ok(ItemsSchemaView::CidLink(node)),
                Err(fault) => Err(fault),
            }),
            tag_of(value, ITEM_TAGS@) == accepted("integer"@)
                ==> ItemsSchema::decoding(value) == (match node::<Integer>(value, true) {
                Ok(node) => Ok(ItemsSchemaView::Integer(node)),
                Err(fault) => Err(fault),
            }),
            tag_of(value, ITEM_TAGS@) == accepted("ref"@)
                ==> ItemsSchema::decoding(value) == (match node::<Ref>(value, true) {
                Ok(node) => Ok(ItemsSchemaView::Ref(node)),
                Err(fault) => Err(fault),
            }),
            tag_of(value, ITEM_TAGS@) == accepted("string"@)
                ==> ItemsSchema::decoding(value) == (match node::<StringTy>(value, true) {
                Ok(node) => Ok(ItemsSchemaView::String(node)),
                Err(fault) => Err(fault),
            }),
            tag_of(value, ITEM_TAGS@) == accepted("union"@)
                ==> ItemsSchema::decoding(value) == (match node::<Union>(value, true) {
                Ok(node) => Ok(ItemsSchemaView::Union(node)),
                Err(fault) => Err(fault),
            }),
            tag_of(value, ITEM_TAGS@) == accepted("unknown"@)
                ==> ItemsSchema::decoding(value) == (match node::<NoMembers>(value, true) {
                Ok(_) => Ok(ItemsSchemaView::Unknown),
                Err(fault) => Err(fault),
            }),
    {
        reveal_strlit("cid-link");
        reveal_strlit("integer");
        reveal_strlit("ref");
        reveal_strlit("string");
        reveal_strlit("union");
        reveal_strlit("unknown");
        assert("cid-link"@.len() == 8);
        assert("integer"@.len() == 7 && "integer"@[0] == 'i');
        assert("ref"@.len() == 3);
        assert("string"@.len() == 6);
        assert("union"@.len() == 5);
        assert("unknown"@.len() == 7 && "unknown"@[0] == 'u');
    }

    /// A value that is decoded as a variant bears the tag of that variant.
    pub proof fn lemma_variant_bears_tag(value: JsonView)
        ensures
            match ItemsSchema::decoding(value) {
                Ok(ItemsSchemaView::CidLink(_)) => tag_of(value, ITEM_TAGS@) == accepted(
                    "cid-link"@,
                ),
                Ok(ItemsSchemaView::Integer(_)) => tag_of(value, ITEM_TAGS@) == accepted(
                    "integer"@,
                ),
                Ok(ItemsSchemaView::Ref(_)) => tag_of(value, ITEM_TAGS@) == accepted("ref"@),
                Ok(ItemsSchemaView::String(_)) => tag_of(value, ITEM_TAGS@) == accepted("string"@),
                Ok(ItemsSchemaView::Union(_)) => tag_of(value, ITEM_TAGS@) == accepted("union"@),
                Ok(ItemsSchemaView::Unknown) => tag_of(value, ITEM_TAGS@) == accepted("unknown"@),
                Err(_) => true,
            },
    {
    }

    /// A tag outside the vocabulary is rejected, whatever else the value holds.
    pub proof fn lemma_unknown_tag_rejected(value: JsonView, tag: Seq<char>)
        requires
            tag_of(value, ITEM_TAGS@) == accepted(tag),
            tag != "cid-link"@,
            tag != "integer"@,
            tag != "ref"@,
            tag != "string"@,
            tag != "union"@,
            tag != "unknown"@,
        ensures
            ItemsSchema::decoding(value) == rejected::<ItemsSchemaView>(
                unknown_tag(tag, ITEM_TAGS@),
            ),
    {
    }

    /// A value without a tag is rejected as the lack of the tag is.
    pub proof fn lemma_tag_needed(value: JsonView)
        ensures
            tag_of(value, ITEM_TAGS@) matches Err(fault) ==> ItemsSchema::decoding(value)
                == rejected::<ItemsSchemaView>(fault),
    {
    }
}

/// A list of items that share one schema.
#[derive(Debug, Clone, PartialEq, Eq)]
pub struct Array {
    /// A description for people.
    pub description: Option<String>,
    /// The schema of each item.
    pub items: ItemsSchema,
    /// The least number of items; its key is `minLength`.
    pub min_length: Option<u64>,
    /// The greatest number of items; its key is `maxLength`.
    pub max_length: Option<u64>,
}

/// The mathematical value of an [`Array`].
pub struct ArrayView {
    pub description: Option<Seq<char>>,
    pub items: ItemsSchemaView,
    pub min_length: Option<u64>,
    pub max_length: Option<u64>,
}

/// What is expected of the keys of an [`Array`].
pub const ARRAY_KEYS: &'static str =
    "one of the keys `description`, `items`, `minLength`, `maxLength`";

impl DeepView for Array {
    type V = ArrayView;

    open spec fn deep_view(&self) -> ArrayView {
        ArrayView {
            description: self.description.deep_view(),
            items: self.items.deep_view(),
            min_length: self.min_length.deep_view(),
            max_length: self.max_length.deep_view(),
        }
    }
}

impl Node for Array {
    open spec fn keys() -> Seq<Seq<char>> {
        seq!["description"@, "items"@, "minLength"@, "maxLength"@]
    }

    open spec fn keys_in_words() -> Seq<char> {
        ARRAY_KEYS@
    }

    open spec fn members(entries: Entries) -> Result<ArrayView, DecodeErrorView> {
        let description = optional_member::<String>(entries, "description"@);
        let items = required_member::<ItemsSchema>(entries, "items"@);
        let min_length = optional_member::<u64>(entries, "minLength"@);
        let max_length = optional_member::<u64>(entries, "maxLength"@);
        if description is Err {
            Err(description->Err_0)
        } else if items is Err {
            Err(items->Err_0)
        } else if min_length is Err {
            Err(min_length->Err_0)
        } else if max_length is Err {
            Err(max_length->Err_0)
        } else {
            Ok(
                ArrayView {
                    description: description->Ok_0,
                    items: items->Ok_0,
                    min_length: min_length->Ok_0,
                    max_length: max_length->Ok_0,
                },
            )
        }
    }

    open spec fn has_stray_member(entries: Entries) -> bool {
        stray_in_member::<String>(entries, "description"@)
        || stray_in_member::<ItemsSchema>(entries, "items"@)
        || stray_in_member::<u64>(entries, "minLength"@)
        || stray_in_member::<u64>(entries, "maxLength"@)
    }

    fn has_key(key: &str) -> (res: bool) {
        let keys = ["description", "items", "minLength", "maxLength"];
        assert(texts(keys@) =~= Self::keys());
        is_held(&keys, key)
    }

    fn describe_keys() -> (res: &'static str) {
        ARRAY_KEYS
    }

    fn decode_members(entries: &Vec<(String, Json)>) -> (res: Result<Array, DecodeError>) {
        let description = decode_optional::<String>(entries, "description")?;
        let items = decode_required::<ItemsSchema>(entries, "items")?;
        let min_length = decode_optional::<u64>(entries, "minLength")?;
        let max_length = decode_optional::<u64>(entries, "maxLength")?;
        Ok(Array { description, items, min_length, max_length })
    }

    proof fn lemma_member_fault_placed(entries: Entries) {
        lemma_member_fault_placed::<String>(entries, "description"@);
        lemma_member_fault_placed::<ItemsSchema>(entries, "items"@);
        lemma_member_fault_placed::<u64>(entries, "minLength"@);
        lemma_member_fault_placed::<u64>(entries, "maxLength"@);
    }

    proof fn lemma_stray_member_rejected(entries: Entries) {
        lemma_stray_in_member::<String>(entries, "description"@);
        lemma_stray_in_member::<ItemsSchema>(entries, "items"@);
        lemma_stray_in_member::<u64>(entries, "minLength"@);
        lemma_stray_in_member::<u64>(entries, "maxLength"@);
    }
}

impl Decode for Array {
    /// An [`Array`] that stands alone is decoded from an object with its keys
    /// and no others.
    open spec fn decoding(value: JsonView) -> Result<ArrayView, DecodeErrorView> {
        node::<Array>(value, false)
    }

    open spec fn has_stray_key(value: JsonView) -> bool {
        node_has_stray_key::<Array>(value, false)
    }

    fn decode(value: &Json) -> (res: Result<Array, DecodeError>) {
        decode_node::<Array>(value, false)
    }

    proof fn lemma_fault_placed(value: JsonView) {
        lemma_node_fault_placed::<Array>(value, false);
    }

    proof fn lemma_stray_key_rejected(value: JsonView) {
        lemma_node_stray_key_rejected::<Array>(value, false);
    }
}

impl Array {
    /// The entries of an object give an [`Array`] exactly when they give each
    /// of its members: one member that is rejected rejects the node. Each
    /// member of the node is then what the entry under its key gives.
    pub proof fn lemma_members(entries: Entries)
        ensures
            <Array as Node>::members(entries) is Ok <==> {
                &&& optional_member::<String>(entries, "description"@) is Ok
                &&& required_member::<ItemsSchema>(entries, "items"@) is Ok
                &&& optional_member::<u64>(entries, "minLength"@) is Ok
                &&& optional_member::<u64>(entries, "maxLength"@) is Ok
            },
            <Array as Node>::members(entries) matches Ok(node) ==> {
                &&& optional_member::<String>(entries, "description"@) == accepted(node.description)
                &&& required_member::<ItemsSchema>(entries, "items"@) == accepted(node.items)
                &&& optional_member::<u64>(entries, "minLength"@) == accepted(node.min_length)
                &&& optional_member::<u64>(entries, "maxLength"@) == accepted(node.max_length)
            },
    {
    }
}

/// The schema of a field of an object.
#[derive(Debug, Clone, PartialEq, Eq)]
pub enum FieldSchema {
    Boolean(Boolean),
    Integer(Integer),
    String(StringTy),
    Bytes(Bytes),
    /// Its tag is `cid-link`.
    CidLink(CidLink),
    Array(Array),
    Blob(Blob),
    Ref(Ref),
    Union(Union),
    /// Any value: the schema says nothing of the field. Its node holds no key
    /// but the tag.
    Unknown,
}

/// The mathematical value of a [`FieldSchema`].
pub enum FieldSchemaView {
    Boolean(BooleanView),
    Integer(IntegerView),
    String(StringTyView),
    Bytes(BytesView),
    CidLink(CidLinkView),
    Array(ArrayView),
    Blob(BlobView),
    Ref(RefView),
    Union(UnionView),
    Unknown,
}

/// The vocabulary of the tags of a [`FieldSchema`].
pub const FIELD_TAGS: &'static str =
    "one of the tags `boolean`, `integer`, `string`, `bytes`, `cid-link`, `array`, `blob`, \
    `ref`, `union`, `unknown`";

impl DeepView for FieldSchema {
    type V = FieldSchemaView;

    open spec fn deep_view(&self) -> FieldSchemaView {
        match self {
            FieldSchema::Boolean(node) => FieldSchemaView::Boolean(node.deep_view()),
            FieldSchema::Integer(node) => FieldSchemaView::Integer(node.deep_view()),
            FieldSchema::String(node) => FieldSchemaView::String(node.deep_view()),
            FieldSchema::Bytes(node) => FieldSchemaView::Bytes(node.deep_view()),
            FieldSchema::CidLink(node) => FieldSchemaView::CidLink(node.deep_view()),
            FieldSchema::Array(node) => FieldSchemaView::Array(node.deep_view()),
            FieldSchema::Blob(node) => FieldSchemaView::Blob(node.deep_view()),
            FieldSchema::Ref(node) => FieldSchemaView::Ref(node.deep_view()),
            FieldSchema::Union(node) => FieldSchemaView::Union(node.deep_view()),
            FieldSchema::Unknown => FieldSchemaView::Unknown,
        }
    }
}

impl Decode for FieldSchema {
    /// A [`FieldSchema`] is decoded from an object whose tag selects the node,
    /// which is then decoded from the same object. A tag outside the vocabulary
    /// selects nothing.
    open spec fn decoding(value: JsonView) -> Result<FieldSchemaView, DecodeErrorView> {
        match tag_of(value, FIELD_TAGS@) {
            Err(fault) => Err(fault),
            Ok(tag) => if tag == "boolean"@ {
                match node::<Boolean>(value, true) {
                    Ok(node) => Ok(FieldSchemaView::Boolean(node)),
                    Err(fault) => Err(fault),
                }
            } else if tag == "integer"@ {
                match node::<Integer>(value, true) {
                    Ok(node) => Ok(FieldSchemaView::Integer(node)),
                    Err(fault) => Err(fault),
                }
            } else if tag == "string"@ {
                match node::<StringTy>(value, true) {
                    Ok(node) => Ok(FieldSchemaView::String(node)),
                    Err(fault) => Err(fault),
                }
            } else if tag == "bytes"@ {
                match node::<Bytes>(value, true) {
                    Ok(node) => Ok(FieldSchemaView::Bytes(node)),
                    Err(fault) => Err(fault),
                }
            } else if tag == "cid-link"@ {
                match node::<CidLink>(value, true) {
                    Ok(node) => Ok(FieldSchemaView::CidLink(node)),
                    Err(fault) => Err(fault),
                }
            } else if tag == "array"@ {
                match node::<Array>(value, true) {
                    Ok(node) => Ok(FieldSchemaView::Array(node)),
                    Err(fault) => Err(fault),
                }
            } else if tag == "blob"@ {
                match node::<Blob>(value, true) {
                    Ok(node) => Ok(FieldSchemaView::Blob(node)),
                    Err(fault) => Err(fault),
                }
            } else if tag == "ref"@ {
                match node::<Ref>(value, true) {
                    Ok(node) => Ok(FieldSchemaView::Ref(node)),
                    Err(fault) => Err(fault),
                }
            } else if tag == "union"@ {
                match node::<Union>(value, true) {
                    Ok(node) => Ok(FieldSchemaView::Union(node)),
                    Err(fault) => Err(fault),
                }
            } else if tag == "unknown"@ {
                match node::<NoMembers>(value, true) {
                    Ok(_) => Ok(FieldSchemaView::Unknown),
                    Err(fault) => Err(fault),
                }
            } else {
                Err(unknown_tag(tag, FIELD_TAGS@))
            },
        }
    }

    /// The value holds a stray key where the node that its tag selects does.
    open spec fn has_stray_key(value: JsonView) -> bool {
        tag_of(value, FIELD_TAGS@) matches Ok(tag) && (
            (tag == "boolean"@ && node_has_stray_key::<Boolean>(value, true))
            || (tag == "integer"@ && node_has_stray_key::<Integer>(value, true))
            || (tag == "string"@ && node_has_stray_key::<StringTy>(value, true))
            || (tag == "bytes"@ && node_has_stray_key::<Bytes>(value, true))
            || (tag == "cid-link"@ && node_has_stray_key::<CidLink>(value, true))
            || (tag == "array"@ && node_has_stray_key::<Array>(value, true))
            || (tag == "blob"@ && node_has_stray_key::<Blob>(value, true))
            || (tag == "ref"@ && node_has_stray_key::<Ref>(value, true))
            || (tag == "union"@ && node_has_stray_key::<Union>(value, true))
            || (tag == "unknown"@ && node_has_stray_key::<NoMembers>(value, true))
        )
    }

    fn decode(value: &Json) -> (res: Result<FieldSchema, DecodeError>) {
        let tag = read_tag(value, FIELD_TAGS)?;
        if same_text(tag, "boolean") {
            Ok(FieldSchema::Boolean(decode_node::<Boolean>(value, true)?))
        } else if same_text(tag, "integer") {
            Ok(FieldSchema::Integer(decode_node::<Integer>(value, true)?))
        } else if same_text(tag, "string") {
            Ok(FieldSchema::String(decode_node::<StringTy>(value, true)?))
        } else if same_text(tag, "bytes") {
            Ok(FieldSchema::Bytes(decode_node::<Bytes>(value, true)?))
        } else if same_text(tag, "cid-link") {
            Ok(FieldSchema::CidLink(decode_node::<CidLink>(value, true)?))
        } else if same_text(tag, "array") {
            Ok(FieldSchema::Array(decode_node::<Array>(value, true)?))
        } else if same_text(tag, "blob") {
            Ok(FieldSchema::Blob(decode_node::<Blob>(value, true)?))
        } else if same_text(tag, "ref") {
            Ok(FieldSchema::Ref(decode_node::<Ref>(value, true)?))
        } else if same_text(tag, "union") {
            Ok(FieldSchema::Union(decode_node::<Union>(value, true)?))
        } else if same_text(tag, "unknown") {
            decode_node::<NoMembers>(value, true)?;
            Ok(FieldSchema::Unknown)
        } else {
            Err(refuse_tag(tag, FIELD_TAGS))
        }
    }

    proof fn lemma_fault_placed(value: JsonView) {
        lemma_tag_fault_placed(value, FIELD_TAGS@);
        lemma_node_fault_placed::<Boolean>(value, true);
        lemma_node_fault_placed::<Integer>(value, true);
        lemma_node_fault_placed::<StringTy>(value, true);
        lemma_node_fault_placed::<Bytes>(value, true);
        lemma_node_fault_placed::<CidLink>(value, true);
        lemma_node_fault_placed::<Array>(value, true);
        lemma_node_fault_placed::<Blob>(value, true);
        lemma_node_fault_placed::<Ref>(value, true);
        lemma_node_fault_placed::<Union>(value, true);
        lemma_node_fault_placed::<NoMembers>(value, true);
    }

    proof fn lemma_stray_key_rejected(value: JsonView) {
        Self::lemma_tag_selects(value);
        lemma_node_stray_key_rejected::<Boolean>(value, true);
        lemma_node_stray_key_rejected::<Integer>(value, true);
        lemma_node_stray_key_rejected::<StringTy>(value, true);
        lemma_node_stray_key_rejected::<Bytes>(value, true);
        lemma_node_stray_key_rejected::<CidLink>(value, true);
        lemma_node_stray_key_rejected::<Array>(value, true);
        lemma_node_stray_key_rejected::<Blob>(value, true);
        lemma_node_stray_key_rejected::<Ref>(value, true);
        lemma_node_stray_key_rejected::<Union>(value, true);
        lemma_node_stray_key_rejected::<NoMembers>(value, true);
    }
}

impl FieldSchema {
    /// The tag decides the variant, and nothing else does: a value with the tag
    /// of a variant is decoded as the node of that variant, and is rejected
    /// where that node rejects it.
    pub proof fn lemma_tag_selects(value: JsonView)
        ensures
            tag_of(value, FIELD_TAGS@) == accepted("boolean"@)
                ==> FieldSchema::decoding(value) == (match node::<Boolean>(value, true) {
                Ok(node) => Ok(FieldSchemaView::Boolean(node)),
                Err(fault) => Err(fault),
            }),
            tag_of(value, FIELD_TAGS@) == accepted("integer"@)
                ==> FieldSchema::decoding(value) == (match node::<Integer>(value, true) {
                Ok(node) => Ok(FieldSchemaView::Integer(node)),
                Err(fault) => Err(fault),
            }),
            tag_of(value, FIELD_TAGS@) == accepted("string"@)
                ==> FieldSchema::decoding(value) == (match node::<StringTy>(value, true) {
                Ok(node) => Ok(FieldSchemaView::String(node)),
                Err(fault) => Err(fault),
            }),
            tag_of(value, FIELD_TAGS@) == accepted("bytes"@)
                ==> FieldSchema::decoding(value) == (match node::<Bytes>(value, true) {
                Ok(node) => Ok(FieldSchemaView::Bytes(node)),
                Err(fault) => Err(fault),
            }),
            tag_of(value, FIELD_TAGS@) == accepted("cid-link"@)
                ==> FieldSchema::decoding(value) == (match node::<CidLink>(value, true) {
                Ok(node) => Ok(FieldSchemaView::CidLink(node)),
                Err(fault) => Err(fault),
            }),
            tag_of(value, FIELD_TAGS@) == accepted("array"@)
                ==> FieldSchema::decoding(value) == (match node::<Array>(value, true) {
                Ok(node) => Ok(FieldSchemaView::Array(node)),
                Err(fault) => Err(fault),
            }),
            tag_of(value, FIELD_TAGS@) == accepted("blob"@)
                ==> FieldSchema::decoding(value) == (match node::<Blob>(value, true) {
                Ok(node) => Ok(FieldSchemaView::Blob(node)),
                Err(fault) => Err(fault),
            }),
            tag_of(value, FIELD_TAGS@) == accepted("ref"@)
                ==> FieldSchema::decoding(value) == (match node::<Ref>(value, true) {
                Ok(node) => Ok(FieldSchemaView::Ref(node)),
                Err(fault) => Err(fault),
            }),
            tag_of(value, FIELD_TAGS@) == accepted("union"@)
                ==> FieldSchema::decoding(value) == (match node::<Union>(value, true) {
                Ok(node) => Ok(FieldSchemaView::Union(node)),
                Err(fault) => Err(fault),
            }),
            tag_of(value, FIELD_TAGS@) == accepted("unknown"@)
                ==> FieldSchema::decoding(value) == (match node::<NoMembers>(value, true) {
                Ok(_) => Ok(FieldSchemaView::Unknown),
                Err(fault) => Err(fault),
            }),
    {
        reveal_strlit("boolean");
        reveal_strlit("integer");
        reveal_strlit("string");
        reveal_strlit("bytes");
        reveal_strlit("cid-link");
        reveal_strlit("array");
        reveal_strlit("blob");
        reveal_strlit("ref");
        reveal_strlit("union");
        reveal_strlit("unknown");
        assert("boolean"@.len() == 7 && "boolean"@[0] == 'b');
        assert("integer"@.len() == 7 && "integer"@[0] == 'i');
        assert("string"@.len() == 6);
        assert("bytes"@.len() == 5 && "bytes"@[0] == 'b');
        assert("cid-link"@.len() == 8);
        assert("array"@.len() == 5 && "array"@[0] == 'a');
        assert("blob"@.len() == 4);
        assert("ref"@.len() == 3);
        assert("union"@.len() == 5 && "union"@[0] == 'u');
        assert("unknown"@.len() == 7 && "unknown"@[0] == 'u');
    }

    /// A value that is decoded as a variant bears the tag of that variant.
    pub proof fn lemma_variant_bears_tag(value: JsonView)
        ensures
            match FieldSchema::decoding(value) {
                Ok(FieldSchemaView::Boolean(_)) => tag_of(value, FIELD_TAGS@) == accepted(
                    "boolean"@,
                ),
                Ok(FieldSchemaView::Integer(_)) => tag_of(value, FIELD_TAGS@) == accepted(
                    "integer"@,
                ),
                Ok(FieldSchemaView::String(_)) => tag_of(value, FIELD_TAGS@) == accepted("string"@),
                Ok(FieldSchemaView::Bytes(_)) => tag_of(value, FIELD_TAGS@) == accepted("bytes"@),
                Ok(FieldSchemaView::CidLink(_)) => tag_of(value, FIELD_TAGS@) == accepted(
                    "cid-link"@,
                ),
                Ok(FieldSchemaView::Array(_)) => tag_of(value, FIELD_TAGS@) == accepted("array"@),
                Ok(FieldSchemaView::Blob(_)) => tag_of(value, FIELD_TAGS@) == accepted("blob"@),
                Ok(FieldSchemaView::Ref(_)) => tag_of(value, FIELD_TAGS@) == accepted("ref"@),
                Ok(FieldSchemaView::Union(_)) => tag_of(value, FIELD_TAGS@) == accepted("union"@),
                Ok(FieldSchemaView::Unknown) => tag_of(value, FIELD_TAGS@) == accepted("unknown"@),
                Err(_) => true,
            },
    {
    }

    /// A tag outside the vocabulary is rejected, whatever else the value holds.
    pub proof fn lemma_unknown_tag_rejected(value: JsonView, tag: Seq<char>)
        requires
            tag_of(value, FIELD_TAGS@) == accepted(tag),
            tag != "boolean"@,
            tag != "integer"@,
            tag != "string"@,
            tag != "bytes"@,
            tag != "cid-link"@,
            tag != "array"@,
            tag != "blob"@,
            tag != "ref"@,
            tag != "union"@,
            tag != "unknown"@,
        ensures
            FieldSchema::decoding(value) == rejected::<FieldSchemaView>(
                unknown_tag(tag, FIELD_TAGS@),
            ),
    {
    }

    /// A value without a tag is rejected as the lack of the tag is.
    pub proof fn lemma_tag_needed(value: JsonView)
        ensures
            tag_of(value, FIELD_TAGS@) matches Err(fault) ==> FieldSchema::decoding(value)
                == rejected::<FieldSchemaView>(fault),
    {
    }

    /// Whether a field of this schema can hold a reference to another entity:
    /// a string can, and nothing else, not even a `ref` or a `union`.
    #[must_use]
    pub fn can_be_reference(&self) -> (res: bool)
        ensures
            res == self.deep_view().can_be_reference(),
    {
        match self {
            FieldSchema::Boolean(_)
            | FieldSchema::Integer(_)
            | FieldSchema::Unknown
            | FieldSchema::Bytes(_)
            | FieldSchema::CidLink(_)
            | FieldSchema::Array(_)
            | FieldSchema::Blob(_)
            | FieldSchema::Ref(_)
            | FieldSchema::Union(_) => false,
            FieldSchema::String(_) => true,
        }
    }
}

/// A record of named fields. That every name under `required` and `nullable` is
/// the name of a field is left to the reader of the schema: decoding does not
/// ask for it.
#[derive(Debug, Clone)]
pub struct Object {
    /// A description for people.
    pub description: Option<String>,
    /// The schema of each field, by the name of the field.
    pub properties: NameMap<FieldSchema>,
    /// The names of the fields that must be present.
    pub required: Option<Vec<String>>,
    /// The names of the fields that may be `null`.
    pub nullable: Option<Vec<String>>,
}

/// The mathematical value of an [`Object`].
pub struct ObjectView {
    pub description: Option<Seq<char>>,
    pub properties: Map<Seq<char>, FieldSchemaView>,
    pub required: Option<Seq<Seq<char>>>,
    pub nullable: Option<Seq<Seq<char>>>,
}

/// What is expected of the keys of an [`Object`].
pub const OBJECT_KEYS: &'static str =
    "one of the keys `description`, `properties`, `required`, `nullable`";

impl DeepView for Object {
    type V = ObjectView;

    open spec fn deep_view(&self) -> ObjectView {
        ObjectView {
            description: self.description.deep_view(),
            properties: self.properties.deep_view(),
            required: self.required.deep_view(),
            nullable: self.nullable.deep_view(),
        }
    }
}

impl Node for Object {
    open spec fn keys() -> Seq<Seq<char>> {
        seq!["description"@, "properties"@, "required"@, "nullable"@]
    }

    open spec fn keys_in_words() -> Seq<char> {
        OBJECT_KEYS@
    }

    open spec fn members(entries: Entries) -> Result<ObjectView, DecodeErrorView> {
        let description = optional_member::<String>(entries, "description"@);
        let properties = required_member::<NameMap<FieldSchema>>(entries, "properties"@);
        let required = optional_member::<Vec<String>>(entries, "required"@);
        let nullable = optional_member::<Vec<String>>(entries, "nullable"@);
        if description is Err {
            Err(description->Err_0)
        } else if properties is Err {
            Err(properties->Err_0)
        } else if required is Err {
            Err(required->Err_0)
        } else if nullable is Err {
            Err(nullable->Err_0)
        } else {
            Ok(
                ObjectView {
                    description: description->Ok_0,
                    properties: properties->Ok_0,
                    required: required->Ok_0,
                    nullable: nullable->Ok_0,
                },
            )
        }
    }

    open spec fn has_stray_member(entries: Entries) -> bool {
        stray_in_member::<String>(entries, "description"@)
        || stray_in_member::<NameMap<FieldSchema>>(entries, "properties"@)
        || stray_in_member::<Vec<String>>(entries, "required"@)
        || stray_in_member::<Vec<String>>(entries, "nullable"@)
    }

    fn has_key(key: &str) -> (res: bool) {
        let keys = ["description", "properties", "required", "nullable"];
        assert(texts(keys@) =~= Self::keys());
        is_held(&keys, key)
    }

    fn describe_keys() -> (res: &'static str) {
        OBJECT_KEYS
    }

    fn decode_members(entries: &Vec<(String, Json)>) -> (res: Result<Object, DecodeError>) {
        let description = decode_optional::<String>(entries, "description")?;
        let properties = decode_required::<NameMap<FieldSchema>>(entries, "properties")?;
        let required = decode_optional::<Vec<String>>(entries, "required")?;
        let nullable = decode_optional::<Vec<String>>(entries, "nullable")?;
        Ok(Object { description, properties, required, nullable })
    }

    proof fn lemma_member_fault_placed(entries: Entries) {
        lemma_member_fault_placed::<String>(entries, "description"@);
        lemma_member_fault_placed::<NameMap<FieldSchema>>(entries, "properties"@);
        lemma_member_fault_placed::<Vec<String>>(entries, "required"@);
        lemma_member_fault_placed::<Vec<String>>(entries, "nullable"@);
    }

    proof fn lemma_stray_member_rejected(entries: Entries) {
        lemma_stray_in_member::<String>(entries, "description"@);
        lemma_stray_in_member::<NameMap<FieldSchema>>(entries, "properties"@);
        lemma_stray_in_member::<Vec<String>>(entries, "required"@);
        lemma_stray_in_member::<Vec<String>>(entries, "nullable"@);
    }
}

impl Decode for Object {
    /// An [`Object`] that stands alone is decoded from an object with its keys
    /// and no others.
    open spec fn decoding(value: JsonView) -> Result<ObjectView, DecodeErrorView> {
        node::<Object>(value, false)
    }

    open spec fn has_stray_key(value: JsonView) -> bool {
        node_has_stray_key::<Object>(value, false)
    }

    fn decode(value: &Json) -> (res: Result<Object, DecodeError>) {
        decode_node::<Object>(value, false)
    }

    proof fn lemma_fault_placed(value: JsonView) {
        lemma_node_fault_placed::<Object>(value, false);
    }

    proof fn lemma_stray_key_rejected(value: JsonView) {
        lemma_node_stray_key_rejected::<Object>(value, false);
    }
}

impl Object {
    /// The entries of an object give an [`Object`] exactly when they give each
    /// of its members: one member that is rejected rejects the node. Each
    /// member of the node is then what the entry under its key gives.
    pub proof fn lemma_members(entries: Entries)
        ensures
            <Object as Node>::members(entries) is Ok <==> {
                &&& optional_member::<String>(entries, "description"@) is Ok
                &&& required_member::<NameMap<FieldSchema>>(entries, "properties"@) is Ok
                &&& optional_member::<Vec<String>>(entries, "required"@) is Ok
                &&& optional_member::<Vec<String>>(entries, "nullable"@) is Ok
            },
            <Object as Node>::members(entries) matches Ok(node) ==> {
                &&& optional_member::<String>(entries, "description"@) == accepted(node.description)
                &&& required_member::<NameMap<FieldSchema>>(entries, "properties"@) == accepted(
                    node.properties,
                )
                &&& optional_member::<Vec<String>>(entries, "required"@) == accepted(node.required)
                &&& optional_member::<Vec<String>>(entries, "nullable"@) == accepted(node.nullable)
            },
    {
    }

    /// Wherever an object stands, a field of it is required exactly when the
    /// array under `required` of its source holds the name of the field, and
    /// nullable exactly when the array under `nullable` does. Without such an
    /// array no field is required, or nullable.
    pub proof fn lemma_lists_from_source(value: JsonView, tagged: bool, name: Seq<char>)
        requires
            node::<Object>(value, tagged) is Ok,
        ensures
            value matches JsonView::Object(entries) && {
                &&& node::<Object>(value, tagged)->Ok_0.is_required(name) <==> lists(
                    entries,
                    "required"@,
                    name,
                )
                &&& node::<Object>(value, tagged)->Ok_0.is_nullable(name) <==> lists(
                    entries,
                    "nullable"@,
                    name,
                )
            },
    {
        lemma_node_accepted::<Object>(value, tagged);
        let entries = value->Object_0;
        Self::lemma_members(entries);
        lemma_optional_list(entries, "required"@, name);
        lemma_optional_list(entries, "nullable"@, name);
    }

    /// Whether `name` stands in the list of the required fields.
    #[must_use]
    pub fn is_required(&self, name: &str) -> (res: bool)
        ensures
            res == self.deep_view().is_required(name@),
    {
        match &self.required {
            Some(names) => is_listed(names, name),
            None => false,
        }
    }

    /// Whether `name` stands in the list of the nullable fields.
    #[must_use]
    pub fn is_nullable(&self, name: &str) -> (res: bool)
        ensures
            res == self.deep_view().is_nullable(name@),
    {
        match &self.nullable {
            Some(names) => is_listed(names, name),
            None => false,
        }
    }

    /// Whether at least one field can hold a reference to another entity.
    #[must_use]
    pub fn has_reference_field(&self) -> (res: bool)
        ensures
            res == self.deep_view().has_reference_field(),
    {
        let n: usize = self.properties.len();
        let mut i: usize = 0;
        while i < n
            invariant
                i <= n,
                n == self.properties.names().len(),
                self.properties.well_formed(),
                forall|m: int|
                    0 <= m < i ==> !(#[trigger] self.properties.values()[m]).deep_view()
                        .can_be_reference(),
            decreases n - i,
        {
            if self.properties.value_at(i).can_be_reference() {
                proof {
                    self.properties.lemma_position(i as int);
                    assert(self.deep_view().properties.contains_key(
                        self.properties.names()[i as int],
                    ));
                }
                return true;
            }
            i = i + 1;
        }
        proof {
            if self.deep_view().has_reference_field() {
                let name = choose|name: Seq<char>| #[trigger]
                    self.deep_view().properties.contains_key(name)
                        && self.deep_view().properties[name].can_be_reference();
                self.properties.lemma_name(name);
                let at = self.properties.names().index_of(name);
                assert(!self.properties.values()[at].deep_view().can_be_reference());
            }
        }
        false
    }
}

impl FieldSchemaView {
    /// Whether a field of this schema can hold a reference to another entity:
    /// a string can, and nothing else.
    pub open spec fn can_be_reference(self) -> bool {
        self is String
    }
}

impl ObjectView {
    /// Whether `name` stands in the list of the required fields. Without such
    /// a list no field is required.
    pub open spec fn is_required(self, name: Seq<char>) -> bool {
        match self.required {
            Some(names) => names.contains(name),
            None => false,
        }
    }

    /// Whether `name` stands in the list of the nullable fields. Without such
    /// a list no field is nullable.
    pub open spec fn is_nullable(self, name: Seq<char>) -> bool {
        match self.nullable {
            Some(names) => names.contains(name),
            None => false,
        }
    }

    /// Whether at least one field can hold a reference to another entity.
    pub open spec fn has_reference_field(self) -> bool {
        exists|name: Seq<char>| #[trigger]
            self.properties.contains_key(name) && self.properties[name].can_be_reference()
    }

    /// Without a list of required fields no field is required.
    pub proof fn lemma_required_absent(self, name: Seq<char>)
        requires
            self.required is None,
        ensures
            !self.is_required(name),
    {
    }

    /// With one name in the list of required fields, that field is required
    /// and no other is.
    pub proof fn lemma_required_single(self, listed: Seq<char>, name: Seq<char>)
        requires
            self.required == Some(seq![listed]),
        ensures
            self.is_required(listed),
            name != listed ==> !self.is_required(name),
    {
        assert(seq![listed][0] == listed);
    }

    /// A field is required exactly when its name stands in the list.
    pub proof fn lemma_required_listed(self, names: Seq<Seq<char>>, name: Seq<char>)
        requires
            self.required == Some(names),
        ensures
            self.is_required(name) <==> exists|i: int|
                0 <= i < names.len() && #[trigger] names[i] == name,
    {
    }

    /// Without a list of nullable fields no field is nullable.
    pub proof fn lemma_nullable_absent(self, name: Seq<char>)
        requires
            self.nullable is None,
        ensures
            !self.is_nullable(name),
    {
    }

    /// With one name in the list of nullable fields, that field is nullable
    /// and no other is.
    pub proof fn lemma_nullable_single(self, listed: Seq<char>, name: Seq<char>)
        requires
            self.nullable == Some(seq![listed]),
        ensures
            self.is_nullable(listed),
            name != listed ==> !self.is_nullable(name),
    {
        assert(seq![listed][0] == listed);
    }

    /// A field is nullable exactly when its name stands in the list.
    pub proof fn lemma_nullable_listed(self, names: Seq<Seq<char>>, name: Seq<char>)
        requires
            self.nullable == Some(names),
        ensures
            self.is_nullable(name) <==> exists|i: int|
                0 <= i < names.len() && #[trigger] names[i] == name,
    {
    }

    /// An object whose only field is a string has a field that can hold a
    /// reference; an object without a string among its fields has none.
    pub proof fn lemma_reference_field(self)
        ensures
            (forall|name: Seq<char>| #[trigger]
                self.properties.contains_key(name) ==> !(self.properties[name] is String))
                ==> !self.has_reference_field(),
            (exists|name: Seq<char>| #[trigger]
                self.properties.contains_key(name) && self.properties[name] is String)
                ==> self.has_reference_field(),
    {
    }

    /// An object with one field has a field that can hold a reference exactly
    /// when that field is a string.
    pub proof fn lemma_only_field(self, name: Seq<char>, schema: FieldSchemaView)
        requires
            self.properties == Map::<Seq<char>, FieldSchemaView>::empty().insert(name, schema),
        ensures
            self.has_reference_field() == (schema is String),
    {
        if schema is String {
            assert(self.properties.contains_key(name));
        }
    }
}

} // verus!
