//! The parameters of a query: a narrower language than that of the fields of
//! an object. A parameter is a boolean, an integer, a string or a list of
//! strings.

use vstd::prelude::*;
use crate::decode::{accepted, rejected, Decode};
use crate::fault::{DecodeError, DecodeErrorView};
use crate::json::{Entries, Json, JsonView};
use crate::leaf::{Boolean, BooleanView, Integer, IntegerView, StringTy, StringTyView};
use crate::member::{
    decode_optional, decode_required, lemma_member_fault_placed, lemma_optional_list,
    lemma_stray_in_member, lists, optional_member, required_member, stray_in_member,
};
use crate::name_map::NameMap;
use crate::node::{
    decode_node, is_held, lemma_node_accepted, lemma_node_fault_placed,
    lemma_node_stray_key_rejected, node, node_has_stray_key, texts, Node,
};
use crate::tag::{lemma_tag_fault_placed, read_tag, refuse_tag, tag_of, unknown_tag};
use crate::text::{is_listed, same_text};

verus! {

/// The schema of the items of a list parameter.
#[derive(Debug, Clone, PartialEq, Eq)]
pub enum ParamItemsSchema {
    String(StringTy),
}

/// The mathematical value of a [`ParamItemsSchema`].
pub enum ParamItemsSchemaView {
    String(StringTyView),
}

/// The vocabulary of the tags of a [`ParamItemsSchema`].
pub const PARAM_ITEM_TAGS: &'static str = "the tag `string`";

impl DeepView for ParamItemsSchema {
    type V = ParamItemsSchemaView;

    open spec fn deep_view(&self) -> ParamItemsSchemaView {
        match self {
            ParamItemsSchema::String(node) => ParamItemsSchemaView::String(node.deep_view()),
        }
    }
}

impl Decode for ParamItemsSchema {
    /// A [`ParamItemsSchema`] is decoded from an object whose tag selects the
    /// node, which is then decoded from the same object. A tag outside the
    /// vocabulary selects nothing.
    open spec fn decoding(value: JsonView) -> Result<ParamItemsSchemaView, DecodeErrorView> {
        match tag_of(value, PARAM_ITEM_TAGS@) {
            Err(fault) => Err(fault),
            Ok(tag) => if tag == "string"@ {
                match node::<StringTy>(value, true) {
                    Ok(node) => Ok(ParamItemsSchemaView::String(node)),
                    Err(fault) => Err(fault),
                }
            } else {
                Err(unknown_tag(tag, PARAM_ITEM_TAGS@))
            },
        }
    }

    /// The value holds a stray key where the node that its tag selects does.
    open spec fn has_stray_key(value: JsonView) -> bool {
        tag_of(value, PARAM_ITEM_TAGS@) matches Ok(tag) && tag == "string"@
            && node_has_stray_key::<StringTy>(value, true)
    }

    fn decode(value: &Json) -> (res: Result<ParamItemsSchema, DecodeError>) {
        let tag = read_tag(value, PARAM_ITEM_TAGS)?;
        if same_text(tag, "string") {
            Ok(ParamItemsSchema::String(decode_node::<StringTy>(value, true)?))
        } else {
            Err(refuse_tag(tag, PARAM_ITEM_TAGS))
        }
    }

    proof fn lemma_fault_placed(value: JsonView) {
        lemma_tag_fault_placed(value, PARAM_ITEM_TAGS@);
        lemma_node_fault_placed::<StringTy>(value, true);
    }

    proof fn lemma_stray_key_rejected(value: JsonView) {
        Self::lemma_tag_selects(value);
        lemma_node_stray_key_rejected::<StringTy>(value, true);
    }
}

impl ParamItemsSchema {
    /// The tag decides the variant, and nothing else does: a value with the tag
    /// of a variant is decoded as the node of that variant, and is rejected
    /// where that node rejects it.
    pub proof fn lemma_tag_selects(value: JsonView)
        ensures
            tag_of(value, PARAM_ITEM_TAGS@) == accepted("string"@)
                ==> ParamItemsSchema::decoding(value) == (match node::<StringTy>(value, true) {
                Ok(node) => Ok(ParamItemsSchemaView::String(node)),
                Err(fault) => Err(fault),
            }),
    {
    }

    /// A value that is decoded as a variant bears the tag of that variant.
    pub proof fn lemma_variant_bears_tag(value: JsonView)
        ensures
            match ParamItemsSchema::decoding(value) {
                Ok(ParamItemsSchemaView::String(_)) => tag_of(value, PARAM_ITEM_TAGS@) == accepted(
                    "string"@,
                ),
                Err(_) => true,
            },
    {
    }

    /// A tag outside the vocabulary is rejected, whatever else the value holds.
    pub proof fn lemma_unknown_tag_rejected(value: JsonView, tag: Seq<char>)
        requires
            tag_of(value, PARAM_ITEM_TAGS@) == accepted(tag),
            tag != "string"@,
        ensures
            ParamItemsSchema::decoding(value) == rejected::<ParamItemsSchemaView>(
                unknown_tag(tag, PARAM_ITEM_TAGS@),
            ),
    {
    }

    /// A value without a tag is rejected as the lack of the tag is.
    pub proof fn lemma_tag_needed(value: JsonView)
        ensures
            tag_of(value, PARAM_ITEM_TAGS@) matches Err(fault) ==> ParamItemsSchema::decoding(value)
                == rejected::<ParamItemsSchemaView>(fault),
    {
    }
}

/// A parameter that is a list.
#[derive(Debug, Clone, PartialEq, Eq)]
pub struct ParamArray {
    /// A description for people.
    pub description: Option<String>,
    /// The schema of each item.
    pub items: ParamItemsSchema,
    /// The least number of items; its key is `minLength`.
    pub min_length: Option<u64>,
    /// The greatest number of items; its key is `maxLength`.
    pub max_length: Option<u64>,
}

/// The mathematical value of a [`ParamArray`].
pub struct ParamArrayView {
    pub description: Option<Seq<char>>,
    pub items: ParamItemsSchemaView,
    pub min_length: Option<u64>,
    pub max_length: Option<u64>,
}

/// What is expected of the keys of a [`ParamArray`].
pub const PARAM_ARRAY_KEYS: &'static str =
    "one of the keys `description`, `items`, `minLength`, `maxLength`";

impl DeepView for ParamArray {
    type V = ParamArrayView;

    open spec fn deep_view(&self) -> ParamArrayView {
        ParamArrayView {
            description: self.description.deep_view(),
            items: self.items.deep_view(),
            min_length: self.min_length.deep_view(),
            max_length: self.max_length.deep_view(),
        }
    }
}

impl Node for ParamArray {
    open spec fn keys() -> Seq<Seq<char>> {
        seq!["description"@, "items"@, "minLength"@, "maxLength"@]
    }

    open spec fn keys_in_words() -> Seq<char> {
        PARAM_ARRAY_KEYS@
    }

    open spec fn members(entries: Entries) -> Result<ParamArrayView, DecodeErrorView> {
        let description = optional_member::<String>(entries, "description"@);
        let items = required_member::<ParamItemsSchema>(entries, "items"@);
        let min_length = optional_member::<u64>(entries, "minLength"@);
        let max_length = optional_member::<u64>(entries, "maxLength"@);
        if description is Err {
            Err(description->Err_0)
        } else if items is Err {
            Err(items->Err_0)
        } else if min_length is Err {
            Err(min_length->Err_0)
        } else if max_length is Err {
            Err(max_length->Err_0)
        } else {
            Ok(
                ParamArrayView {
                    description: description->Ok_0,
                    items: items->Ok_0,
                    min_length: min_length->Ok_0,
                    max_length: max_length->Ok_0,
                },
            )
        }
    }

    open spec fn has_stray_member(entries: Entries) -> bool {
        stray_in_member::<String>(entries, "description"@)
        || stray_in_member::<ParamItemsSchema>(entries, "items"@)
        || stray_in_member::<u64>(entries, "minLength"@)
        || stray_in_member::<u64>(entries, "maxLength"@)
    }

    fn has_key(key: &str) -> (res: bool) {
        let keys = ["description", "items", "minLength", "maxLength"];
        assert(texts(keys@) =~= Self::keys());
        is_held(&keys, key)
    }

    fn describe_keys() -> (res: &'static str) {
        PARAM_ARRAY_KEYS
    }

    fn decode_members(entries: &Vec<(String, Json)>) -> (res: Result<ParamArray, DecodeError>) {
        let description = decode_optional::<String>(entries, "description")?;
        let items = decode_required::<ParamItemsSchema>(entries, "items")?;
        let min_length = decode_optional::<u64>(entries, "minLength")?;
        let max_length = decode_optional::<u64>(entries, "maxLength")?;
        Ok(ParamArray { description, items, min_length, max_length })
    }

    proof fn lemma_member_fault_placed(entries: Entries) {
        lemma_member_fault_placed::<String>(entries, "description"@);
        lemma_member_fault_placed::<ParamItemsSchema>(entries, "items"@);
        lemma_member_fault_placed::<u64>(entries, "minLength"@);
        lemma_member_fault_placed::<u64>(entries, "maxLength"@);
    }

    proof fn lemma_stray_member_rejected(entries: Entries) {
        lemma_stray_in_member::<String>(entries, "description"@);
        lemma_stray_in_member::<ParamItemsSchema>(entries, "items"@);
        lemma_stray_in_member::<u64>(entries, "minLength"@);
        lemma_stray_in_member::<u64>(entries, "maxLength"@);
    }
}

impl Decode for ParamArray {
    /// A [`ParamArray`] that stands alone is decoded from an object with its
    /// keys and no others.
    open spec fn decoding(value: JsonView) -> Result<ParamArrayView, DecodeErrorView> {
        node::<ParamArray>(value, false)
    }

    open spec fn has_stray_key(value: JsonView) -> bool {
        node_has_stray_key::<ParamArray>(value, false)
    }

    fn decode(value: &Json) -> (res: Result<ParamArray, DecodeError>) {
        decode_node::<ParamArray>(value, false)
    }

    proof fn lemma_fault_placed(value: JsonView) {
        lemma_node_fault_placed::<ParamArray>(value, false);
    }

    proof fn lemma_stray_key_rejected(value: JsonView) {
        lemma_node_stray_key_rejected::<ParamArray>(value, false);
    }
}

impl ParamArray {
    /// The entries of an object give a [`ParamArray`] exactly when they give
    /// each of its members: one member that is rejected rejects the node. Each
    /// member of the node is then what the entry under its key gives.
    pub proof fn lemma_members(entries: Entries)
        ensures
            <ParamArray as Node>::members(entries) is Ok <==> {
                &&& optional_member::<String>(entries, "description"@) is Ok
                &&& required_member::<ParamItemsSchema>(entries, "items"@) is Ok
                &&& optional_member::<u64>(entries, "minLength"@) is Ok
                &&& optional_member::<u64>(entries, "maxLength"@) is Ok
            },
            <ParamArray as Node>::members(entries) matches Ok(node) ==> {
                &&& optional_member::<String>(entries, "description"@) == accepted(node.description)
                &&& required_member::<ParamItemsSchema>(entries, "items"@) == accepted(node.items)
                &&& optional_member::<u64>(entries, "minLength"@) == accepted(node.min_length)
                &&& optional_member::<u64>(entries, "maxLength"@) == accepted(node.max_length)
            },
    {
    }
}

/// The schema of a parameter.
#[derive(Debug, Clone, PartialEq, Eq)]
pub enum ParamSchema {
    Boolean(Boolean),
    Integer(Integer),
    String(StringTy),
    Array(ParamArray),
}

/// The mathematical value of a [`ParamSchema`].
pub enum ParamSchemaView {
    Boolean(BooleanView),
    Integer(IntegerView),
    String(StringTyView),
    Array(ParamArrayView),
}

/// The vocabulary of the tags of a [`ParamSchema`].
pub const PARAM_TAGS: &'static str = "one of the tags `boolean`, `integer`, `string`, `array`";

impl DeepView for ParamSchema {
    type V = ParamSchemaView;

    open spec fn deep_view(&self) -> ParamSchemaView {
        match self {
            ParamSchema::Boolean(node) => ParamSchemaView::Boolean(node.deep_view()),
            ParamSchema::Integer(node) => ParamSchemaView::Integer(node.deep_view()),
            ParamSchema::String(node) => ParamSchemaView::String(node.deep_view()),
            ParamSchema::Array(node) => ParamSchemaView::Array(node.deep_view()),
        }
    }
}

impl Decode for ParamSchema {
    /// A [`ParamSchema`] is decoded from an object whose tag selects the node,
    /// which is then decoded from the same object. A tag outside the vocabulary
    /// selects nothing.
    open spec fn decoding(value: JsonView) -> Result<ParamSchemaView, DecodeErrorView> {
        match tag_of(value, PARAM_TAGS@) {
            Err(fault) => Err(fault),
            Ok(tag) => if tag == "boolean"@ {
                match node::<Boolean>(value, true) {
                    Ok(node) => Ok(ParamSchemaView::Boolean(node)),
                    Err(fault) => Err(fault),
                }
            } else if tag == "integer"@ {
                match node::<Integer>(value, true) {
                    Ok(node) => Ok(ParamSchemaView::Integer(node)),
                    Err(fault) => Err(fault),
                }
            } else if tag == "string"@ {
                match node::<StringTy>(value, true) {
                    Ok(node) => Ok(ParamSchemaView::String(node)),
                    Err(fault) => Err(fault),
                }
            } else if tag == "array"@ {
                match node::<ParamArray>(value, true) {
                    Ok(node) => Ok(ParamSchemaView::Array(node)),
                    Err(fault) => Err(fault),
                }
            } else {
                Err(unknown_tag(tag, PARAM_TAGS@))
            },
        }
    }

    /// The value holds a stray key where the node that its tag selects does.
    open spec fn has_stray_key(value: JsonView) -> bool {
        tag_of(value, PARAM_TAGS@) matches Ok(tag) && (
            (tag == "boolean"@ && node_has_stray_key::<Boolean>(value, true))
            || (tag == "integer"@ && node_has_stray_key::<Integer>(value, true))
            || (tag == "string"@ && node_has_stray_key::<StringTy>(value, true))
            || (tag == "array"@ && node_has_stray_key::<ParamArray>(value, true))
        )
    }

    fn decode(value: &Json) -> (res: Result<ParamSchema, DecodeError>) {
        let tag = read_tag(value, PARAM_TAGS)?;
        if same_text(tag, "boolean") {
            Ok(ParamSchema::Boolean(decode_node::<Boolean>(value, true)?))
        } else if same_text(tag, "integer") {
            Ok(ParamSchema::Integer(decode_node::<Integer>(value, true)?))
        } else if same_text(tag, "string") {
            Ok(ParamSchema::String(decode_node::<StringTy>(value, true)?))
        } else if same_text(tag, "array") {
            Ok(ParamSchema::Array(decode_node::<ParamArray>(value, true)?))
        } else {
            Err(refuse_tag(tag, PARAM_TAGS))
        }
    }

    proof fn lemma_fault_placed(value: JsonView) {
        lemma_tag_fault_placed(value, PARAM_TAGS@);
        lemma_node_fault_placed::<Boolean>(value, true);
        lemma_node_fault_placed::<Integer>(value, true);
        lemma_node_fault_placed::<StringTy>(value, true);
        lemma_node_fault_placed::<ParamArray>(value, true);
    }

    proof fn lemma_stray_key_rejected(value: JsonView) {
        Self::lemma_tag_selects(value);
        lemma_node_stray_key_rejected::<Boolean>(value, true);
        lemma_node_stray_key_rejected::<Integer>(value, true);
        lemma_node_stray_key_rejected::<StringTy>(value, true);
        lemma_node_stray_key_rejected::<ParamArray>(value, true);
    }
}

impl ParamSchema {
    /// The tag decides the variant, and nothing else does: a value with the tag
    /// of a variant is decoded as the node of that variant, and is rejected
    /// where that node rejects it.
    pub proof fn lemma_tag_selects(value: JsonView)
        ensures
            tag_of(value, PARAM_TAGS@) == accepted("boolean"@)
                ==> ParamSchema::decoding(value) == (match node::<Boolean>(value, true) {
                Ok(node) => Ok(ParamSchemaView::Boolean(node)),
                Err(fault) => Err(fault),
            }),
            tag_of(value, PARAM_TAGS@) == accepted("integer"@)
                ==> ParamSchema::decoding(value) == (match node::<Integer>(value, true) {
                Ok(node) => Ok(ParamSchemaView::Integer(node)),
                Err(fault) => Err(fault),
            }),
            tag_of(value, PARAM_TAGS@) == accepted("string"@)
                ==> ParamSchema::decoding(value) == (match node::<StringTy>(value, true) {
                Ok(node) => Ok(ParamSchemaView::String(node)),
                Err(fault) => Err(fault),
            }),
            tag_of(value, PARAM_TAGS@) == accepted("array"@)
                ==> ParamSchema::decoding(value) == (match node::<ParamArray>(value, true) {
                Ok(node) => Ok(ParamSchemaView::Array(node)),
                Err(fault) => Err(fault),
            }),
    {
        reveal_strlit("boolean");
        reveal_strlit("integer");
        reveal_strlit("string");
        reveal_strlit("array");
        assert("boolean"@.len() == 7 && "boolean"@[0] == 'b');
        assert("integer"@.len() == 7 && "integer"@[0] == 'i');
        assert("string"@.len() == 6);
        assert("array"@.len() == 5);
    }

    /// A value that is decoded as a variant bears the tag of that variant.
    pub proof fn lemma_variant_bears_tag(value: JsonView)
        ensures
            match ParamSchema::decoding(value) {
                Ok(ParamSchemaView::Boolean(_)) => tag_of(value, PARAM_TAGS@) == accepted(
                    "boolean"@,
                ),
                Ok(ParamSchemaView::Integer(_)) => tag_of(value, PARAM_TAGS@) == accepted(
                    "integer"@,
                ),
                Ok(ParamSchemaView::String(_)) => tag_of(value, PARAM_TAGS@) == accepted("string"@),
                Ok(ParamSchemaView::Array(_)) => tag_of(value, PARAM_TAGS@) == accepted("array"@),
                Err(_) => true,
            },
    {
    }

    /// A tag outside the vocabulary is rejected, whatever else the value holds.
    pub proof fn lemma_unknown_tag_rejected(value: JsonView, tag: Seq<char>)
        requires
            tag_of(value, PARAM_TAGS@) == accepted(tag),
            tag != "boolean"@,
            tag != "integer"@,
            tag != "string"@,
            tag != "array"@,
        ensures
            ParamSchema::decoding(value) == rejected::<ParamSchemaView>(
                unknown_tag(tag, PARAM_TAGS@),
            ),
    {
    }

    /// A value without a tag is rejected as the lack of the tag is.
    pub proof fn lemma_tag_needed(value: JsonView)
        ensures
            tag_of(value, PARAM_TAGS@) matches Err(fault) ==> ParamSchema::decoding(value)
                == rejected::<ParamSchemaView>(fault),
    {
    }
}

/// The parameters of a query or a subscription.
#[derive(Debug, Clone)]
pub struct Params {
    /// The kind of the node, as the document gives it; its key is `type`. It is
    /// a member like the others and selects nothing.
    pub ty: String,
    /// The names of the parameters that must be present.
    pub required: Option<Vec<String>>,
    /// The schema of each parameter, by the name of the parameter.
    pub properties: NameMap<ParamSchema>,
}

/// The mathematical value of a [`Params`].
pub struct ParamsView {
    pub ty: Seq<char>,
    pub required: Option<Seq<Seq<char>>>,
    pub properties: Map<Seq<char>, ParamSchemaView>,
}

/// What is expected of the keys of a [`Params`].
pub const PARAMS_KEYS: &'static str = "one of the keys `type`, `required`, `properties`";

impl DeepView for Params {
    type V = ParamsView;

    open spec fn deep_view(&self) -> ParamsView {
        ParamsView {
            ty: self.ty.deep_view(),
            required: self.required.deep_view(),
            properties: self.properties.deep_view(),
        }
    }
}

impl Node for Params {
    open spec fn keys() -> Seq<Seq<char>> {
        seq!["type"@, "required"@, "properties"@]
    }

    open spec fn keys_in_words() -> Seq<char> {
        PARAMS_KEYS@
    }

    open spec fn members(entries: Entries) -> Result<ParamsView, DecodeErrorView> {
        let ty = required_member::<String>(entries, "type"@);
        let required = optional_member::<Vec<String>>(entries, "required"@);
        let properties = required_member::<NameMap<ParamSchema>>(entries, "properties"@);
        if ty is Err {
            Err(ty->Err_0)
        } else if required is Err {
            Err(required->Err_0)
        } else if properties is Err {
            Err(properties->Err_0)
        } else {
            Ok(
                ParamsView {
                    ty: ty->Ok_0,
                    required: required->Ok_0,
                    properties: properties->Ok_0,
                },
            )
        }
    }

    open spec fn has_stray_member(entries: Entries) -> bool {
        stray_in_member::<String>(entries, "type"@)
        || stray_in_member::<Vec<String>>(entries, "required"@)
        || stray_in_member::<NameMap<ParamSchema>>(entries, "properties"@)
    }

    fn has_key(key: &str) -> (res: bool) {
        let keys = ["type", "required", "properties"];
        assert(texts(keys@) =~= Self::keys());
        is_held(&keys, key)
    }

    fn describe_keys() -> (res: &'static str) {
        PARAMS_KEYS
    }

    fn decode_members(entries: &Vec<(String, Json)>) -> (res: Result<Params, DecodeError>) {
        let ty = decode_required::<String>(entries, "type")?;
        let required = decode_optional::<Vec<String>>(entries, "required")?;
        let properties = decode_required::<NameMap<ParamSchema>>(entries, "properties")?;
        Ok(Params { ty, required, properties })
    }

    proof fn lemma_member_fault_placed(entries: Entries) {
        lemma_member_fault_placed::<String>(entries, "type"@);
        lemma_member_fault_placed::<Vec<String>>(entries, "required"@);
        lemma_member_fault_placed::<NameMap<ParamSchema>>(entries, "properties"@);
    }

    proof fn lemma_stray_member_rejected(entries: Entries) {
        lemma_stray_in_member::<String>(entries, "type"@);
        lemma_stray_in_member::<Vec<String>>(entries, "required"@);
        lemma_stray_in_member::<NameMap<ParamSchema>>(entries, "properties"@);
    }
}

impl Decode for Params {
    /// A [`Params`] that stands alone is decoded from an object with its keys
    /// and no others.
    open spec fn decoding(value: JsonView) -> Result<ParamsView, DecodeErrorView> {
        node::<Params>(value, false)
    }

    open spec fn has_stray_key(value: JsonView) -> bool {
        node_has_stray_key::<Params>(value, false)
    }

    fn decode(value: &Json) -> (res: Result<Params, DecodeError>) {
        decode_node::<Params>(value, false)
    }

    proof fn lemma_fault_placed(value: JsonView) {
        lemma_node_fault_placed::<Params>(value, false);
    }

    proof fn lemma_stray_key_rejected(value: JsonView) {
        lemma_node_stray_key_rejected::<Params>(value, false);
    }
}

impl Params {
    /// The entries of an object give a [`Params`] exactly when they give each
    /// of its members: one member that is rejected rejects the node. Each
    /// member of the node is then what the entry under its key gives.
    pub proof fn lemma_members(entries: Entries)
        ensures
            <Params as Node>::members(entries) is Ok <==> {
                &&& required_member::<String>(entries, "type"@) is Ok
                &&& optional_member::<Vec<String>>(entries, "required"@) is Ok
                &&& required_member::<NameMap<ParamSchema>>(entries, "properties"@) is Ok
            },
            <Params as Node>::members(entries) matches Ok(node) ==> {
                &&& required_member::<String>(entries, "type"@) == accepted(node.ty)
                &&& optional_member::<Vec<String>>(entries, "required"@) == accepted(node.required)
                &&& required_member::<NameMap<ParamSchema>>(entries, "properties"@) == accepted(
                    node.properties,
                )
            },
    {
    }

    /// Wherever parameters stand, a parameter is required exactly when the
    /// array under `required` of the source holds its name. Without such an
    /// array no parameter is required.
    pub proof fn lemma_required_from_source(value: JsonView, tagged: bool, name: Seq<char>)
        requires
            node::<Params>(value, tagged) is Ok,
        ensures
            value matches JsonView::Object(entries) && (node::<Params>(
                value,
                tagged,
            )->Ok_0.is_required(name) <==> lists(entries, "required"@, name)),
    {
        lemma_node_accepted::<Params>(value, tagged);
        let entries = value->Object_0;
        Self::lemma_members(entries);
        lemma_optional_list(entries, "required"@, name);
    }

    /// Whether `name` stands in the list of the required parameters.
    #[must_use]
    pub fn is_required(&self, name: &str) -> (res: bool)
        ensures
            res == self.deep_view().is_required(name@),
    {
        match &self.required {
            Some(names) => is_listed(names, name),
            None => false,
        }
    }
}

impl ParamsView {
    /// Whether `name` stands in the list of the required parameters. Without
    /// such a list no parameter is required.
    pub open spec fn is_required(self, name: Seq<char>) -> bool {
        match self.required {
            Some(names) => names.contains(name),
            None => false,
        }
    }

    /// Without a list of required parameters no parameter is required.
    pub proof fn lemma_required_absent(self, name: Seq<char>)
        requires
            self.required is None,
        ensures
            !self.is_required(name),
    {
    }

    /// With one name in the list of required parameters, that parameter is
    /// required and no other is.
    pub proof fn lemma_required_single(self, listed: Seq<char>, name: Seq<char>)
        requires
            self.required == Some(seq![listed]),
        ensures
            self.is_required(listed),
            name != listed ==> !self.is_required(name),
    {
        assert(seq![listed][0] == listed);
    }
}

} // verus!
