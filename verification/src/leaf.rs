//! The nodes without nodes inside: the constraints on a boolean, an integer, a
//! string, bytes, a link, a blob, and the references to other definitions.

use vstd::prelude::*;
use crate::decode::{accepted, Decode};
use crate::fault::{Cause, CauseView, DecodeError, DecodeErrorView};
use crate::json::{Entries, Json, JsonView};
use crate::member::{
    decode_optional, decode_or, decode_required, lemma_member_fault_placed,
    lemma_stray_in_member, member_or, optional_member, required_member, stray_in_member,
};
use crate::node::{
    decode_node, is_held, lemma_node_fault_placed, lemma_node_stray_key_rejected, node,
    node_has_stray_key, texts, Node,
};
use crate::text::same_text;

verus! {

/// The constraints on a boolean value. An absent member constrains nothing.
#[derive(Debug, Clone, PartialEq, Eq)]
pub struct Boolean {
    /// A description for people.
    pub description: Option<String>,
    /// The value that stands for an absent one.
    pub default: Option<bool>,
    /// The one value that is allowed; its key is `const`.
    pub constant: Option<bool>,
}

/// The mathematical value of a [`Boolean`].
pub struct BooleanView {
    pub description: Option<Seq<char>>,
    pub default: Option<bool>,
    pub constant: Option<bool>,
}

/// What is expected of the keys of a [`Boolean`].
pub const BOOLEAN_KEYS: &'static str = "one of the keys `description`, `default`, `const`";

impl DeepView for Boolean {
    type V = BooleanView;

    open spec fn deep_view(&self) -> BooleanView {
        BooleanView {
            description: self.description.deep_view(),
            default: self.default.deep_view(),
            constant: self.constant.deep_view(),
        }
    }
}

impl Node for Boolean {
    open spec fn keys() -> Seq<Seq<char>> {
        seq!["description"@, "default"@, "const"@]
    }

    open spec fn keys_in_words() -> Seq<char> {
        BOOLEAN_KEYS@
    }

    open spec fn members(entries: Entries) -> Result<BooleanView, DecodeErrorView> {
        let description = optional_member::<String>(entries, "description"@);
        let default = optional_member::<bool>(entries, "default"@);
        let constant = optional_member::<bool>(entries, "const"@);
        if description is Err {
            Err(description->Err_0)
        } else if default is Err {
            Err(default->Err_0)
        } else if constant is Err {
            Err(constant->Err_0)
        } else {
            Ok(
                BooleanView {
                    description: description->Ok_0,
                    default: default->Ok_0,
                    constant: constant->Ok_0,
                },
            )
        }
    }

    open spec fn has_stray_member(entries: Entries) -> bool {
        stray_in_member::<String>(entries, "description"@)
        || stray_in_member::<bool>(entries, "default"@)
        || stray_in_member::<bool>(entries, "const"@)
    }

    fn has_key(key: &str) -> (res: bool) {
        let keys = ["description", "default", "const"];
        assert(texts(keys@) =~= Self::keys());
        is_held(&keys, key)
    }

    fn describe_keys() -> (res: &'static str) {
        BOOLEAN_KEYS
    }

    fn decode_members(entries: &Vec<(String, Json)>) -> (res: Result<Boolean, DecodeError>) {
        let description = decode_optional::<String>(entries, "description")?;
        let default = decode_optional::<bool>(entries, "default")?;
        let constant = decode_optional::<bool>(entries, "const")?;
        Ok(Boolean { description, default, constant })
    }

    proof fn lemma_member_fault_placed(entries: Entries) {
        lemma_member_fault_placed::<String>(entries, "description"@);
        lemma_member_fault_placed::<bool>(entries, "default"@);
        lemma_member_fault_placed::<bool>(entries, "const"@);
    }

    proof fn lemma_stray_member_rejected(entries: Entries) {
        lemma_stray_in_member::<String>(entries, "description"@);
        lemma_stray_in_member::<bool>(entries, "default"@);
        lemma_stray_in_member::<bool>(entries, "const"@);
    }
}

impl Decode for Boolean {
    /// A [`Boolean`] that stands alone is decoded from an object with its keys
    /// and no others.
    open spec fn decoding(value: JsonView) -> Result<BooleanView, DecodeErrorView> {
        node::<Boolean>(value, false)
    }

    open spec fn has_stray_key(value: JsonView) -> bool {
        node_has_stray_key::<Boolean>(value, false)
    }

    fn decode(value: &Json) -> (res: Result<Boolean, DecodeError>) {
        decode_node::<Boolean>(value, false)
    }

    proof fn lemma_fault_placed(value: JsonView) {
        lemma_node_fault_placed::<Boolean>(value, false);
    }

    proof fn lemma_stray_key_rejected(value: JsonView) {
        lemma_node_stray_key_rejected::<Boolean>(value, false);
    }
}

impl Boolean {
    /// The entries of an object give a [`Boolean`] exactly when they give each
    /// of its members: one member that is rejected rejects the node. Each
    /// member of the node is then what the entry under its key gives.
    pub proof fn lemma_members(entries: Entries)
        ensures
            <Boolean as Node>::members(entries) is Ok <==> {
                &&& optional_member::<String>(entries, "description"@) is Ok
                &&& optional_member::<bool>(entries, "default"@) is Ok
                &&& optional_member::<bool>(entries, "const"@) is Ok
            },
            <Boolean as Node>::members(entries) matches Ok(node) ==> {
                &&& optional_member::<String>(entries, "description"@) == accepted(node.description)
                &&& optional_member::<bool>(entries, "default"@) == accepted(node.default)
                &&& optional_member::<bool>(entries, "const"@) == accepted(node.constant)
            },
    {
    }
}

/// The constraints on an integer value. An absent member constrains nothing.
#[derive(Debug, Clone, PartialEq, Eq)]
pub struct Integer {
    /// A description for people.
    pub description: Option<String>,
    /// The least value that is allowed.
    pub minimum: Option<i64>,
    /// The greatest value that is allowed.
    pub maximum: Option<i64>,
    /// The value that stands for an absent one.
    pub default: Option<i64>,
}

/// The mathematical value of an [`Integer`].
pub struct IntegerView {
    pub description: Option<Seq<char>>,
    pub minimum: Option<i64>,
    pub maximum: Option<i64>,
    pub default: Option<i64>,
}

/// What is expected of the keys of an [`Integer`].
pub const INTEGER_KEYS: &'static str =
    "one of the keys `description`, `minimum`, `maximum`, `default`";

impl DeepView for Integer {
    type V = IntegerView;

    open spec fn deep_view(&self) -> IntegerView {
        IntegerView {
            description: self.description.deep_view(),
            minimum: self.minimum.deep_view(),
            maximum: self.maximum.deep_view(),
            default: self.default.deep_view(),
        }
    }
}

impl Node for Integer {
    open spec fn keys() -> Seq<Seq<char>> {
        seq!["description"@, "minimum"@, "maximum"@, "default"@]
    }

    open spec fn keys_in_words() -> Seq<char> {
        INTEGER_KEYS@
    }

    open spec fn members(entries: Entries) -> Result<IntegerView, DecodeErrorView> {
        let description = optional_member::<String>(entries, "description"@);
        let minimum = optional_member::<i64>(entries, "minimum"@);
        let maximum = optional_member::<i64>(entries, "maximum"@);
        let default = optional_member::<i64>(entries, "default"@);
        if description is Err {
            Err(description->Err_0)
        } else if minimum is Err {
            Err(minimum->Err_0)
        } else if maximum is Err {
            Err(maximum->Err_0)
        } else if default is Err {
            Err(default->Err_0)
        } else {
            Ok(
                IntegerView {
                    description: description->Ok_0,
                    minimum: minimum->Ok_0,
                    maximum: maximum->Ok_0,
                    default: default->Ok_0,
                },
            )
        }
    }

    open spec fn has_stray_member(entries: Entries) -> bool {
        stray_in_member::<String>(entries, "description"@)
        || stray_in_member::<i64>(entries, "minimum"@)
        || stray_in_member::<i64>(entries, "maximum"@)
        || stray_in_member::<i64>(entries, "default"@)
    }

    fn has_key(key: &str) -> (res: bool) {
        let keys = ["description", "minimum", "maximum", "default"];
        assert(texts(keys@) =~= Self::keys());
        is_held(&keys, key)
    }

    fn describe_keys() -> (res: &'static str) {
        INTEGER_KEYS
    }

    fn decode_members(entries: &Vec<(String, Json)>) -> (res: Result<Integer, DecodeError>) {
        let description = decode_optional::<String>(entries, "description")?;
        let minimum = decode_optional::<i64>(entries, "minimum")?;
        let maximum = decode_optional::<i64>(entries, "maximum")?;
        let default = decode_optional::<i64>(entries, "default")?;
        Ok(Integer { description, minimum, maximum, default })
    }

    proof fn lemma_member_fault_placed(entries: Entries) {
        lemma_member_fault_placed::<String>(entries, "description"@);
        lemma_member_fault_placed::<i64>(entries, "minimum"@);
        lemma_member_fault_placed::<i64>(entries, "maximum"@);
        lemma_member_fault_placed::<i64>(entries, "default"@);
    }

    proof fn lemma_stray_member_rejected(entries: Entries) {
        lemma_stray_in_member::<String>(entries, "description"@);
        lemma_stray_in_member::<i64>(entries, "minimum"@);
        lemma_stray_in_member::<i64>(entries, "maximum"@);
        lemma_stray_in_member::<i64>(entries, "default"@);
    }
}

impl Decode for Integer {
    /// An [`Integer`] that stands alone is decoded from an object with its keys
    /// and no others.
    open spec fn decoding(value: JsonView) -> Result<IntegerView, DecodeErrorView> {
        node::<Integer>(value, false)
    }

    open spec fn has_stray_key(value: JsonView) -> bool {
        node_has_stray_key::<Integer>(value, false)
    }

    fn decode(value: &Json) -> (res: Result<Integer, DecodeError>) {
        decode_node::<Integer>(value, false)
    }

    proof fn lemma_fault_placed(value: JsonView) {
        lemma_node_fault_placed::<Integer>(value, false);
    }

    proof fn lemma_stray_key_rejected(value: JsonView) {
        lemma_node_stray_key_rejected::<Integer>(value, false);
    }
}

impl Integer {
    /// The entries of an object give an [`Integer`] exactly when they give each
    /// of its members: one member that is rejected rejects the node. Each
    /// member of the node is then what the entry under its key gives.
    pub proof fn lemma_members(entries: Entries)
        ensures
            <Integer as Node>::members(entries) is Ok <==> {
                &&& optional_member::<String>(entries, "description"@) is Ok
                &&& optional_member::<i64>(entries, "minimum"@) is Ok
                &&& optional_member::<i64>(entries, "maximum"@) is Ok
                &&& optional_member::<i64>(entries, "default"@) is Ok
            },
            <Integer as Node>::members(entries) matches Ok(node) ==> {
                &&& optional_member::<String>(entries, "description"@) == accepted(node.description)
                &&& optional_member::<i64>(entries, "minimum"@) == accepted(node.minimum)
                &&& optional_member::<i64>(entries, "maximum"@) == accepted(node.maximum)
                &&& optional_member::<i64>(entries, "default"@) == accepted(node.default)
            },
    {
    }
}

/// The formats that a string can be held to.
#[derive(Debug, Clone, Copy, PartialEq, Eq, Structural)]
pub enum StringFormat {
    /// A handle or a DID; its name is `at-identifier`.
    AtIdentifier,
    /// Its name is `at-uri`.
    AtUri,
    Cid,
    Datetime,
    Did,
    Handle,
    Nsid,
    Uri,
    Language,
}

/// The vocabulary of the names of a [`StringFormat`].
pub const FORMAT_NAMES: &'static str =
    "one of the names `at-identifier`, `at-uri`, `cid`, `datetime`, `did`, `handle`, `nsid`, \
    `uri`, `language`";

impl DeepView for StringFormat {
    type V = StringFormat;

    open spec fn deep_view(&self) -> StringFormat {
        *self
    }
}

impl StringFormat {
    /// The format that a name stands for, if it stands for one.
    pub open spec fn named(name: Seq<char>) -> Option<StringFormat> {
        if name == "at-identifier"@ {
            Some(StringFormat::AtIdentifier)
        } else if name == "at-uri"@ {
            Some(StringFormat::AtUri)
        } else if name == "cid"@ {
            Some(StringFormat::Cid)
        } else if name == "datetime"@ {
            Some(StringFormat::Datetime)
        } else if name == "did"@ {
            Some(StringFormat::Did)
        } else if name == "handle"@ {
            Some(StringFormat::Handle)
        } else if name == "nsid"@ {
            Some(StringFormat::Nsid)
        } else if name == "uri"@ {
            Some(StringFormat::Uri)
        } else if name == "language"@ {
            Some(StringFormat::Language)
        } else {
            None
        }
    }

    /// Finds the format that a name stands for.
    pub fn from_name(name: &str) -> (res: Option<StringFormat>)
        ensures
            res == Self::named(name@),
    {
        if same_text(name, "at-identifier") {
            Some(StringFormat::AtIdentifier)
        } else if same_text(name, "at-uri") {
            Some(StringFormat::AtUri)
        } else if same_text(name, "cid") {
            Some(StringFormat::Cid)
        } else if same_text(name, "datetime") {
            Some(StringFormat::Datetime)
        } else if same_text(name, "did") {
            Some(StringFormat::Did)
        } else if same_text(name, "handle") {
            Some(StringFormat::Handle)
        } else if same_text(name, "nsid") {
            Some(StringFormat::Nsid)
        } else if same_text(name, "uri") {
            Some(StringFormat::Uri)
        } else if same_text(name, "language") {
            Some(StringFormat::Language)
        } else {
            None
        }
    }
}

impl Decode for StringFormat {
    /// A format is decoded from a string that is one of the names.
    open spec fn decoding(value: JsonView) -> Result<StringFormat, DecodeErrorView> {
        match value {
            JsonView::Str(name) => match Self::named(name) {
                Some(format) => Ok(format),
                None => Err(DecodeErrorView::here(FORMAT_NAMES@, CauseView::UnknownTag(name))),
            },
            _ => Err(DecodeErrorView::here(FORMAT_NAMES@, CauseView::WrongShape(value.shape()))),
        }
    }

    open spec fn has_stray_key(value: JsonView) -> bool {
        false
    }

    proof fn lemma_stray_key_rejected(value: JsonView) {
    }

    proof fn lemma_fault_placed(value: JsonView) {
    }

    fn decode(value: &Json) -> (res: Result<StringFormat, DecodeError>) {
        match value {
            Json::Str(name) => match Self::from_name(name.as_str()) {
                Some(format) => Ok(format),
                None => Err(DecodeError::here(FORMAT_NAMES, Cause::UnknownTag(name.clone()))),
            },
            _ => Err(DecodeError::here(FORMAT_NAMES, Cause::WrongShape(value.shape()))),
        }
    }
}


/// The constraints on a string value. An absent member constrains nothing.
#[derive(Debug, Clone, PartialEq, Eq)]
pub struct StringTy {
    /// A description for people.
    pub description: Option<String>,
    /// The format that the string follows.
    pub format: Option<StringFormat>,
    /// The greatest length in bytes of UTF-8; its key is `maxLength`.
    pub max_length: Option<u64>,
    /// The least length in bytes of UTF-8; its key is `minLength`.
    pub min_length: Option<u64>,
    /// The greatest length in grapheme clusters; its key is `maxGraphemes`.
    pub max_graphemes: Option<u64>,
    /// Values that are suggested, beside which others are allowed; its key is
    /// `knownValues`.
    pub known_values: Option<Vec<String>>,
    /// The values that are allowed, and no others; its key is `enum`.
    pub enum_values: Option<Vec<String>>,
    /// The value that stands for an absent one.
    pub default: Option<String>,
}

/// The mathematical value of a [`StringTy`].
pub struct StringTyView {
    pub description: Option<Seq<char>>,
    pub format: Option<StringFormat>,
    pub max_length: Option<u64>,
    pub min_length: Option<u64>,
    pub max_graphemes: Option<u64>,
    pub known_values: Option<Seq<Seq<char>>>,
    pub enum_values: Option<Seq<Seq<char>>>,
    pub default: Option<Seq<char>>,
}

/// What is expected of the keys of a [`StringTy`].
pub const STRING_KEYS: &'static str =
    "one of the keys `description`, `format`, `maxLength`, `minLength`, `maxGraphemes`, \
    `knownValues`, `enum`, `default`";

impl DeepView for StringTy {
    type V = StringTyView;

    open spec fn deep_view(&self) -> StringTyView {
        StringTyView {
            description: self.description.deep_view(),
            format: self.format.deep_view(),
            max_length: self.max_length.deep_view(),
            min_length: self.min_length.deep_view(),
            max_graphemes: self.max_graphemes.deep_view(),
            known_values: self.known_values.deep_view(),
            enum_values: self.enum_values.deep_view(),
            default: self.default.deep_view(),
        }
    }
}

impl Node for StringTy {
    open spec fn keys() -> Seq<Seq<char>> {
        seq![
            "description"@, "format"@, "maxLength"@, "minLength"@, "maxGraphemes"@, "knownValues"@,
            "enum"@, "default"@,
        ]
    }

    open spec fn keys_in_words() -> Seq<char> {
        STRING_KEYS@
    }

    open spec fn members(entries: Entries) -> Result<StringTyView, DecodeErrorView> {
        let description = optional_member::<String>(entries, "description"@);
        let format = optional_member::<StringFormat>(entries, "format"@);
        let max_length = optional_member::<u64>(entries, "maxLength"@);
        let min_length = optional_member::<u64>(entries, "minLength"@);
        let max_graphemes = optional_member::<u64>(entries, "maxGraphemes"@);
        let known_values = optional_member::<Vec<String>>(entries, "knownValues"@);
        let enum_values = optional_member::<Vec<String>>(entries, "enum"@);
        let default = optional_member::<String>(entries, "default"@);
        if description is Err {
            Err(description->Err_0)
        } else if format is Err {
            Err(format->Err_0)
        } else if max_length is Err {
            Err(max_length->Err_0)
        } else if min_length is Err {
            Err(min_length->Err_0)
        } else if max_graphemes is Err {
            Err(max_graphemes->Err_0)
        } else if known_values is Err {
            Err(known_values->Err_0)
        } else if enum_values is Err {
            Err(enum_values->Err_0)
        } else if default is Err {
            Err(default->Err_0)
        } else {
            Ok(
                StringTyView {
                    description: description->Ok_0,
                    format: format->Ok_0,
                    max_length: max_length->Ok_0,
                    min_length: min_length->Ok_0,
                    max_graphemes: max_graphemes->Ok_0,
                    known_values: known_values->Ok_0,
                    enum_values: enum_values->Ok_0,
                    default: default->Ok_0,
                },
            )
        }
    }

    open spec fn has_stray_member(entries: Entries) -> bool {
        stray_in_member::<String>(entries, "description"@)
        || stray_in_member::<StringFormat>(entries, "format"@)
        || stray_in_member::<u64>(entries, "maxLength"@)
        || stray_in_member::<u64>(entries, "minLength"@)
        || stray_in_member::<u64>(entries, "maxGraphemes"@)
        || stray_in_member::<Vec<String>>(entries, "knownValues"@)
        || stray_in_member::<Vec<String>>(entries, "enum"@)
        || stray_in_member::<String>(entries, "default"@)
    }

    fn has_key(key: &str) -> (res: bool) {
        let keys = [
            "description", "format", "maxLength", "minLength", "maxGraphemes", "knownValues",
            "enum", "default",
        ];
        assert(texts(keys@) =~= Self::keys());
        is_held(&keys, key)
    }

    fn describe_keys() -> (res: &'static str) {
        STRING_KEYS
    }

    fn decode_members(entries: &Vec<(String, Json)>) -> (res: Result<StringTy, DecodeError>) {
        let description = decode_optional::<String>(entries, "description")?;
        let format = decode_optional::<StringFormat>(entries, "format")?;
        let max_length = decode_optional::<u64>(entries, "maxLength")?;
        let min_length = decode_optional::<u64>(entries, "minLength")?;
        let max_graphemes = decode_optional::<u64>(entries, "maxGraphemes")?;
        let known_values = decode_optional::<Vec<String>>(entries, "knownValues")?;
        let enum_values = decode_optional::<Vec<String>>(entries, "enum")?;
        let default = decode_optional::<String>(entries, "default")?;
        Ok(StringTy {
            description, format, max_length, min_length, max_graphemes, known_values, enum_values,
            default,
        })
    }

    proof fn lemma_member_fault_placed(entries: Entries) {
        lemma_member_fault_placed::<String>(entries, "description"@);
        lemma_member_fault_placed::<StringFormat>(entries, "format"@);
        lemma_member_fault_placed::<u64>(entries, "maxLength"@);
        lemma_member_fault_placed::<u64>(entries, "minLength"@);
        lemma_member_fault_placed::<u64>(entries, "maxGraphemes"@);
        lemma_member_fault_placed::<Vec<String>>(entries, "knownValues"@);
        lemma_member_fault_placed::<Vec<String>>(entries, "enum"@);
        lemma_member_fault_placed::<String>(entries, "default"@);
    }

    proof fn lemma_stray_member_rejected(entries: Entries) {
        lemma_stray_in_member::<String>(entries, "description"@);
        lemma_stray_in_member::<StringFormat>(entries, "format"@);
        lemma_stray_in_member::<u64>(entries, "maxLength"@);
        lemma_stray_in_member::<u64>(entries, "minLength"@);
        lemma_stray_in_member::<u64>(entries, "maxGraphemes"@);
        lemma_stray_in_member::<Vec<String>>(entries, "knownValues"@);
        lemma_stray_in_member::<Vec<String>>(entries, "enum"@);
        lemma_stray_in_member::<String>(entries, "default"@);
    }
}

impl Decode for StringTy {
    /// A [`StringTy`] that stands alone is decoded from an object with its keys
    /// and no others.
    open spec fn decoding(value: JsonView) -> Result<StringTyView, DecodeErrorView> {
        node::<StringTy>(value, false)
    }

    open spec fn has_stray_key(value: JsonView) -> bool {
        node_has_stray_key::<StringTy>(value, false)
    }

    fn decode(value: &Json) -> (res: Result<StringTy, DecodeError>) {
        decode_node::<StringTy>(value, false)
    }

    proof fn lemma_fault_placed(value: JsonView) {
        lemma_node_fault_placed::<StringTy>(value, false);
    }

    proof fn lemma_stray_key_rejected(value: JsonView) {
        lemma_node_stray_key_rejected::<StringTy>(value, false);
    }
}

impl StringTy {
    /// The entries of an object give a [`StringTy`] exactly when they give each
    /// of its members: one member that is rejected rejects the node. Each
    /// member of the node is then what the entry under its key gives.
    pub proof fn lemma_members(entries: Entries)
        ensures
            <StringTy as Node>::members(entries) is Ok <==> {
                &&& optional_member::<String>(entries, "description"@) is Ok
                &&& optional_member::<StringFormat>(entries, "format"@) is Ok
                &&& optional_member::<u64>(entries, "maxLength"@) is Ok
                &&& optional_member::<u64>(entries, "minLength"@) is Ok
                &&& optional_member::<u64>(entries, "maxGraphemes"@) is Ok
                &&& optional_member::<Vec<String>>(entries, "knownValues"@) is Ok
                &&& optional_member::<Vec<String>>(entries, "enum"@) is Ok
                &&& optional_member::<String>(entries, "default"@) is Ok
            },
            <StringTy as Node>::members(entries) matches Ok(node) ==> {
                &&& optional_member::<String>(entries, "description"@) == accepted(node.description)
                &&& optional_member::<StringFormat>(entries, "format"@) == accepted(node.format)
                &&& optional_member::<u64>(entries, "maxLength"@) == accepted(node.max_length)
                &&& optional_member::<u64>(entries, "minLength"@) == accepted(node.min_length)
                &&& optional_member::<u64>(entries, "maxGraphemes"@) == accepted(node.max_graphemes)
                &&& optional_member::<Vec<String>>(entries, "knownValues"@) == accepted(
                    node.known_values,
                )
                &&& optional_member::<Vec<String>>(entries, "enum"@) == accepted(node.enum_values)
                &&& optional_member::<String>(entries, "default"@) == accepted(node.default)
            },
    {
    }
}

/// The constraints on a value of raw bytes.
#[derive(Debug, Clone, PartialEq, Eq)]
pub struct Bytes {
    /// A description for people.
    pub description: Option<String>,
    /// The greatest number of bytes; its key is `maxLength`.
    pub max_length: Option<u64>,
}

/// The mathematical value of a [`Bytes`].
pub struct BytesView {
    pub description: Option<Seq<char>>,
    pub max_length: Option<u64>,
}

/// What is expected of the keys of a [`Bytes`].
pub const BYTES_KEYS: &'static str = "one of the keys `description`, `maxLength`";

impl DeepView for Bytes {
    type V = BytesView;

    open spec fn deep_view(&self) -> BytesView {
        BytesView {
            description: self.description.deep_view(),
            max_length: self.max_length.deep_view(),
        }
    }
}

impl Node for Bytes {
    open spec fn keys() -> Seq<Seq<char>> {
        seq!["description"@, "maxLength"@]
    }

    open spec fn keys_in_words() -> Seq<char> {
        BYTES_KEYS@
    }

    open spec fn members(entries: Entries) -> Result<BytesView, DecodeErrorView> {
        let description = optional_member::<String>(entries, "description"@);
        let max_length = optional_member::<u64>(entries, "maxLength"@);
        if description is Err {
            Err(description->Err_0)
        } else if max_length is Err {
            Err(max_length->Err_0)
        } else {
            Ok(
                BytesView {
                    description: description->Ok_0,
                    max_length: max_length->Ok_0,
                },
            )
        }
    }

    open spec fn has_stray_member(entries: Entries) -> bool {
        stray_in_member::<String>(entries, "description"@)
        || stray_in_member::<u64>(entries, "maxLength"@)
    }

    fn has_key(key: &str) -> (res: bool) {
        let keys = ["description", "maxLength"];
        assert(texts(keys@) =~= Self::keys());
        is_held(&keys, key)
    }

    fn describe_keys() -> (res: &'static str) {
        BYTES_KEYS
    }

    fn decode_members(entries: &Vec<(String, Json)>) -> (res: Result<Bytes, DecodeError>) {
        let description = decode_optional::<String>(entries, "description")?;
        let max_length = decode_optional::<u64>(entries, "maxLength")?;
        Ok(Bytes { description, max_length })
    }

    proof fn lemma_member_fault_placed(entries: Entries) {
        lemma_member_fault_placed::<String>(entries, "description"@);
        lemma_member_fault_placed::<u64>(entries, "maxLength"@);
    }

    proof fn lemma_stray_member_rejected(entries: Entries) {
        lemma_stray_in_member::<String>(entries, "description"@);
        lemma_stray_in_member::<u64>(entries, "maxLength"@);
    }
}

impl Decode for Bytes {
    /// A [`Bytes`] that stands alone is decoded from an object with its keys
    /// and no others.
    open spec fn decoding(value: JsonView) -> Result<BytesView, DecodeErrorView> {
        node::<Bytes>(value, false)
    }

    open spec fn has_stray_key(value: JsonView) -> bool {
        node_has_stray_key::<Bytes>(value, false)
    }

    fn decode(value: &Json) -> (res: Result<Bytes, DecodeError>) {
        decode_node::<Bytes>(value, false)
    }

    proof fn lemma_fault_placed(value: JsonView) {
        lemma_node_fault_placed::<Bytes>(value, false);
    }

    proof fn lemma_stray_key_rejected(value: JsonView) {
        lemma_node_stray_key_rejected::<Bytes>(value, false);
    }
}

impl Bytes {
    /// The entries of an object give a [`Bytes`] exactly when they give each of
    /// its members: one member that is rejected rejects the node. Each member
    /// of the node is then what the entry under its key gives.
    pub proof fn lemma_members(entries: Entries)
        ensures
            <Bytes as Node>::members(entries) is Ok <==> {
                &&& optional_member::<String>(entries, "description"@) is Ok
                &&& optional_member::<u64>(entries, "maxLength"@) is Ok
            },
            <Bytes as Node>::members(entries) matches Ok(node) ==> {
                &&& optional_member::<String>(entries, "description"@) == accepted(node.description)
                &&& optional_member::<u64>(entries, "maxLength"@) == accepted(node.max_length)
            },
    {
    }
}

/// A link to content by its identifier.
#[derive(Debug, Clone, PartialEq, Eq)]
pub struct CidLink {
    /// A description for people.
    pub description: Option<String>,
}

/// The mathematical value of a [`CidLink`].
pub struct CidLinkView {
    pub description: Option<Seq<char>>,
}

/// What is expected of the keys of a [`CidLink`].
pub const CID_LINK_KEYS: &'static str = "the key `description`";

impl DeepView for CidLink {
    type V = CidLinkView;

    open spec fn deep_view(&self) -> CidLinkView {
        CidLinkView {
            description: self.description.deep_view(),
        }
    }
}

impl Node for CidLink {
    open spec fn keys() -> Seq<Seq<char>> {
        seq!["description"@]
    }

    open spec fn keys_in_words() -> Seq<char> {
        CID_LINK_KEYS@
    }

    open spec fn members(entries: Entries) -> Result<CidLinkView, DecodeErrorView> {
        let description = optional_member::<String>(entries, "description"@);
        if description is Err {
            Err(description->Err_0)
        } else {
            Ok(
                CidLinkView {
                    description: description->Ok_0,
                },
            )
        }
    }

    open spec fn has_stray_member(entries: Entries) -> bool {
        stray_in_member::<String>(entries, "description"@)
    }

    fn has_key(key: &str) -> (res: bool) {
        let keys = ["description"];
        assert(texts(keys@) =~= Self::keys());
        is_held(&keys, key)
    }

    fn describe_keys() -> (res: &'static str) {
        CID_LINK_KEYS
    }

    fn decode_members(entries: &Vec<(String, Json)>) -> (res: Result<CidLink, DecodeError>) {
        let description = decode_optional::<String>(entries, "description")?;
        Ok(CidLink { description })
    }

    proof fn lemma_member_fault_placed(entries: Entries) {
        lemma_member_fault_placed::<String>(entries, "description"@);
    }

    proof fn lemma_stray_member_rejected(entries: Entries) {
        lemma_stray_in_member::<String>(entries, "description"@);
    }
}

impl Decode for CidLink {
    /// A [`CidLink`] that stands alone is decoded from an object with its keys
    /// and no others.
    open spec fn decoding(value: JsonView) -> Result<CidLinkView, DecodeErrorView> {
        node::<CidLink>(value, false)
    }

    open spec fn has_stray_key(value: JsonView) -> bool {
        node_has_stray_key::<CidLink>(value, false)
    }

    fn decode(value: &Json) -> (res: Result<CidLink, DecodeError>) {
        decode_node::<CidLink>(value, false)
    }

    proof fn lemma_fault_placed(value: JsonView) {
        lemma_node_fault_placed::<CidLink>(value, false);
    }

    proof fn lemma_stray_key_rejected(value: JsonView) {
        lemma_node_stray_key_rejected::<CidLink>(value, false);
    }
}

impl CidLink {
    /// The entries of an object give a [`CidLink`] exactly when they give each
    /// of its members: one member that is rejected rejects the node. Each
    /// member of the node is then what the entry under its key gives.
    pub proof fn lemma_members(entries: Entries)
        ensures
            <CidLink as Node>::members(entries) is Ok <==> {
                &&& optional_member::<String>(entries, "description"@) is Ok
            },
            <CidLink as Node>::members(entries) matches Ok(node) ==> {
                &&& optional_member::<String>(entries, "description"@) == accepted(node.description)
            },
    {
    }
}

/// A name that stands for itself and carries no value.
#[derive(Debug, Clone, PartialEq, Eq)]
pub struct Token {
    /// A description for people.
    pub description: Option<String>,
}

/// The mathematical value of a [`Token`].
pub struct TokenView {
    pub description: Option<Seq<char>>,
}

/// What is expected of the keys of a [`Token`].
pub const TOKEN_KEYS: &'static str = "the key `description`";

impl DeepView for Token {
    type V = TokenView;

    open spec fn deep_view(&self) -> TokenView {
        TokenView {
            description: self.description.deep_view(),
        }
    }
}

impl Node for Token {
    open spec fn keys() -> Seq<Seq<char>> {
        seq!["description"@]
    }

    open spec fn keys_in_words() -> Seq<char> {
        TOKEN_KEYS@
    }

    open spec fn members(entries: Entries) -> Result<TokenView, DecodeErrorView> {
        let description = optional_member::<String>(entries, "description"@);
        if description is Err {
            Err(description->Err_0)
        } else {
            Ok(
                TokenView {
                    description: description->Ok_0,
                },
            )
        }
    }

    open spec fn has_stray_member(entries: Entries) -> bool {
        stray_in_member::<String>(entries, "description"@)
    }

    fn has_key(key: &str) -> (res: bool) {
        let keys = ["description"];
        assert(texts(keys@) =~= Self::keys());
        is_held(&keys, key)
    }

    fn describe_keys() -> (res: &'static str) {
        TOKEN_KEYS
    }

    fn decode_members(entries: &Vec<(String, Json)>) -> (res: Result<Token, DecodeError>) {
        let description = decode_optional::<String>(entries, "description")?;
        Ok(Token { description })
    }

    proof fn lemma_member_fault_placed(entries: Entries) {
        lemma_member_fault_placed::<String>(entries, "description"@);
    }

    proof fn lemma_stray_member_rejected(entries: Entries) {
        lemma_stray_in_member::<String>(entries, "description"@);
    }
}

impl Decode for Token {
    /// A [`Token`] that stands alone is decoded from an object with its keys
    /// and no others.
    open spec fn decoding(value: JsonView) -> Result<TokenView, DecodeErrorView> {
        node::<Token>(value, false)
    }

    open spec fn has_stray_key(value: JsonView) -> bool {
        node_has_stray_key::<Token>(value, false)
    }

    fn decode(value: &Json) -> (res: Result<Token, DecodeError>) {
        decode_node::<Token>(value, false)
    }

    proof fn lemma_fault_placed(value: JsonView) {
        lemma_node_fault_placed::<Token>(value, false);
    }

    proof fn lemma_stray_key_rejected(value: JsonView) {
        lemma_node_stray_key_rejected::<Token>(value, false);
    }
}

impl Token {
    /// The entries of an object give a [`Token`] exactly when they give each of
    /// its members: one member that is rejected rejects the node. Each member
    /// of the node is then what the entry under its key gives.
    pub proof fn lemma_members(entries: Entries)
        ensures
            <Token as Node>::members(entries) is Ok <==> {
                &&& optional_member::<String>(entries, "description"@) is Ok
            },
            <Token as Node>::members(entries) matches Ok(node) ==> {
                &&& optional_member::<String>(entries, "description"@) == accepted(node.description)
            },
    {
    }
}

/// A reference to binary content that is stored elsewhere.
#[derive(Debug, Clone, PartialEq, Eq)]
pub struct Blob {
    /// A description for people.
    pub description: Option<String>,
    /// The MIME types that are allowed.
    pub accept: Option<Vec<String>>,
    /// The greatest size in bytes; its key is `maxSize`.
    pub max_size: Option<u64>,
}

/// The mathematical value of a [`Blob`].
pub struct BlobView {
    pub description: Option<Seq<char>>,
    pub accept: Option<Seq<Seq<char>>>,
    pub max_size: Option<u64>,
}

/// What is expected of the keys of a [`Blob`].
pub const BLOB_KEYS: &'static str = "one of the keys `description`, `accept`, `maxSize`";

impl DeepView for Blob {
    type V = BlobView;

    open spec fn deep_view(&self) -> BlobView {
        BlobView {
            description: self.description.deep_view(),
            accept: self.accept.deep_view(),
            max_size: self.max_size.deep_view(),
        }
    }
}

impl Node for Blob {
    open spec fn keys() -> Seq<Seq<char>> {
        seq!["description"@, "accept"@, "maxSize"@]
    }

    open spec fn keys_in_words() -> Seq<char> {
        BLOB_KEYS@
    }

    open spec fn members(entries: Entries) -> Result<BlobView, DecodeErrorView> {
        let description = optional_member::<String>(entries, "description"@);
        let accept = optional_member::<Vec<String>>(entries, "accept"@);
        let max_size = optional_member::<u64>(entries, "maxSize"@);
        if description is Err {
            Err(description->Err_0)
        } else if accept is Err {
            Err(accept->Err_0)
        } else if max_size is Err {
            Err(max_size->Err_0)
        } else {
            Ok(
                BlobView {
                    description: description->Ok_0,
                    accept: accept->Ok_0,
                    max_size: max_size->Ok_0,
                },
            )
        }
    }

    open spec fn has_stray_member(entries: Entries) -> bool {
        stray_in_member::<String>(entries, "description"@)
        || stray_in_member::<Vec<String>>(entries, "accept"@)
        || stray_in_member::<u64>(entries, "maxSize"@)
    }

    fn has_key(key: &str) -> (res: bool) {
        let keys = ["description", "accept", "maxSize"];
        assert(texts(keys@) =~= Self::keys());
        is_held(&keys, key)
    }

    fn describe_keys() -> (res: &'static str) {
        BLOB_KEYS
    }

    fn decode_members(entries: &Vec<(String, Json)>) -> (res: Result<Blob, DecodeError>) {
        let description = decode_optional::<String>(entries, "description")?;
        let accept = decode_optional::<Vec<String>>(entries, "accept")?;
        let max_size = decode_optional::<u64>(entries, "maxSize")?;
        Ok(Blob { description, accept, max_size })
    }

    proof fn lemma_member_fault_placed(entries: Entries) {
        lemma_member_fault_placed::<String>(entries, "description"@);
        lemma_member_fault_placed::<Vec<String>>(entries, "accept"@);
        lemma_member_fault_placed::<u64>(entries, "maxSize"@);
    }

    proof fn lemma_stray_member_rejected(entries: Entries) {
        lemma_stray_in_member::<String>(entries, "description"@);
        lemma_stray_in_member::<Vec<String>>(entries, "accept"@);
        lemma_stray_in_member::<u64>(entries, "maxSize"@);
    }
}

impl Decode for Blob {
    /// A [`Blob`] that stands alone is decoded from an object with its keys and
    /// no others.
    open spec fn decoding(value: JsonView) -> Result<BlobView, DecodeErrorView> {
        node::<Blob>(value, false)
    }

    open spec fn has_stray_key(value: JsonView) -> bool {
        node_has_stray_key::<Blob>(value, false)
    }

    fn decode(value: &Json) -> (res: Result<Blob, DecodeError>) {
        decode_node::<Blob>(value, false)
    }

    proof fn lemma_fault_placed(value: JsonView) {
        lemma_node_fault_placed::<Blob>(value, false);
    }

    proof fn lemma_stray_key_rejected(value: JsonView) {
        lemma_node_stray_key_rejected::<Blob>(value, false);
    }
}

impl Blob {
    /// The entries of an object give a [`Blob`] exactly when they give each of
    /// its members: one member that is rejected rejects the node. Each member
    /// of the node is then what the entry under its key gives.
    pub proof fn lemma_members(entries: Entries)
        ensures
            <Blob as Node>::members(entries) is Ok <==> {
                &&& optional_member::<String>(entries, "description"@) is Ok
                &&& optional_member::<Vec<String>>(entries, "accept"@) is Ok
                &&& optional_member::<u64>(entries, "maxSize"@) is Ok
            },
            <Blob as Node>::members(entries) matches Ok(node) ==> {
                &&& optional_member::<String>(entries, "description"@) == accepted(node.description)
                &&& optional_member::<Vec<String>>(entries, "accept"@) == accepted(node.accept)
                &&& optional_member::<u64>(entries, "maxSize"@) == accepted(node.max_size)
            },
    {
    }
}

/// A reference to another definition by its name. The name is kept as it is
/// written and never resolved.
#[derive(Debug, Clone, PartialEq, Eq)]
pub struct Ref {
    /// A description for people.
    pub description: Option<String>,
    /// The name of the definition: `#name` within the document, `nsid#name` in
    /// another; its key is `ref`.
    pub reference: String,
}

/// The mathematical value of a [`Ref`].
pub struct RefView {
    pub description: Option<Seq<char>>,
    pub reference: Seq<char>,
}

/// What is expected of the keys of a [`Ref`].
pub const REF_KEYS: &'static str = "one of the keys `description`, `ref`";

impl DeepView for Ref {
    type V = RefView;

    open spec fn deep_view(&self) -> RefView {
        RefView {
            description: self.description.deep_view(),
            reference: self.reference.deep_view(),
        }
    }
}

impl Node for Ref {
    open spec fn keys() -> Seq<Seq<char>> {
        seq!["description"@, "ref"@]
    }

    open spec fn keys_in_words() -> Seq<char> {
        REF_KEYS@
    }

    open spec fn members(entries: Entries) -> Result<RefView, DecodeErrorView> {
        let description = optional_member::<String>(entries, "description"@);
        let reference = required_member::<String>(entries, "ref"@);
        if description is Err {
            Err(description->Err_0)
        } else if reference is Err {
            Err(reference->Err_0)
        } else {
            Ok(
                RefView {
                    description: description->Ok_0,
                    reference: reference->Ok_0,
                },
            )
        }
    }

    open spec fn has_stray_member(entries: Entries) -> bool {
        stray_in_member::<String>(entries, "description"@)
        || stray_in_member::<String>(entries, "ref"@)
    }

    fn has_key(key: &str) -> (res: bool) {
        let keys = ["description", "ref"];
        assert(texts(keys@) =~= Self::keys());
        is_held(&keys, key)
    }

    fn describe_keys() -> (res: &'static str) {
        REF_KEYS
    }

    fn decode_members(entries: &Vec<(String, Json)>) -> (res: Result<Ref, DecodeError>) {
        let description = decode_optional::<String>(entries, "description")?;
        let reference = decode_required::<String>(entries, "ref")?;
        Ok(Ref { description, reference })
    }

    proof fn lemma_member_fault_placed(entries: Entries) {
        lemma_member_fault_placed::<String>(entries, "description"@);
        lemma_member_fault_placed::<String>(entries, "ref"@);
    }

    proof fn lemma_stray_member_rejected(entries: Entries) {
        lemma_stray_in_member::<String>(entries, "description"@);
        lemma_stray_in_member::<String>(entries, "ref"@);
    }
}

impl Decode for Ref {
    /// A [`Ref`] that stands alone is decoded from an object with its keys and
    /// no others.
    open spec fn decoding(value: JsonView) -> Result<RefView, DecodeErrorView> {
        node::<Ref>(value, false)
    }

    open spec fn has_stray_key(value: JsonView) -> bool {
        node_has_stray_key::<Ref>(value, false)
    }

    fn decode(value: &Json) -> (res: Result<Ref, DecodeError>) {
        decode_node::<Ref>(value, false)
    }

    proof fn lemma_fault_placed(value: JsonView) {
        lemma_node_fault_placed::<Ref>(value, false);
    }

    proof fn lemma_stray_key_rejected(value: JsonView) {
        lemma_node_stray_key_rejected::<Ref>(value, false);
    }
}

impl Ref {
    /// The entries of an object give a [`Ref`] exactly when they give each of
    /// its members: one member that is rejected rejects the node. Each member
    /// of the node is then what the entry under its key gives.
    pub proof fn lemma_members(entries: Entries)
        ensures
            <Ref as Node>::members(entries) is Ok <==> {
                &&& optional_member::<String>(entries, "description"@) is Ok
                &&& required_member::<String>(entries, "ref"@) is Ok
            },
            <Ref as Node>::members(entries) matches Ok(node) ==> {
                &&& optional_member::<String>(entries, "description"@) == accepted(node.description)
                &&& required_member::<String>(entries, "ref"@) == accepted(node.reference)
            },
    {
    }
}

/// A choice among definitions, each referred to by its name.
#[derive(Debug, Clone, PartialEq, Eq)]
pub struct Union {
    /// A description for people.
    pub description: Option<String>,
    /// Whether the listed definitions are the only ones allowed. An absent
    /// member stands for `false`.
    pub closed: bool,
    /// The names of the definitions, in the order of the document.
    pub refs: Vec<String>,
}

/// The mathematical value of a [`Union`].
pub struct UnionView {
    pub description: Option<Seq<char>>,
    pub closed: bool,
    pub refs: Seq<Seq<char>>,
}

/// What is expected of the keys of a [`Union`].
pub const UNION_KEYS: &'static str = "one of the keys `description`, `closed`, `refs`";

impl DeepView for Union {
    type V = UnionView;

    open spec fn deep_view(&self) -> UnionView {
        UnionView {
            description: self.description.deep_view(),
            closed: self.closed.deep_view(),
            refs: self.refs.deep_view(),
        }
    }
}

impl Node for Union {
    open spec fn keys() -> Seq<Seq<char>> {
        seq!["description"@, "closed"@, "refs"@]
    }

    open spec fn keys_in_words() -> Seq<char> {
        UNION_KEYS@
    }

    open spec fn members(entries: Entries) -> Result<UnionView, DecodeErrorView> {
        let description = optional_member::<String>(entries, "description"@);
        let closed = member_or::<bool>(entries, "closed"@, false);
        let refs = required_member::<Vec<String>>(entries, "refs"@);
        if description is Err {
            Err(description->Err_0)
        } else if closed is Err {
            Err(closed->Err_0)
        } else if refs is Err {
            Err(refs->Err_0)
        } else {
            Ok(
                UnionView {
                    description: description->Ok_0,
                    closed: closed->Ok_0,
                    refs: refs->Ok_0,
                },
            )
        }
    }

    open spec fn has_stray_member(entries: Entries) -> bool {
        stray_in_member::<String>(entries, "description"@)
        || stray_in_member::<bool>(entries, "closed"@)
        || stray_in_member::<Vec<String>>(entries, "refs"@)
    }

    fn has_key(key: &str) -> (res: bool) {
        let keys = ["description", "closed", "refs"];
        assert(texts(keys@) =~= Self::keys());
        is_held(&keys, key)
    }

    fn describe_keys() -> (res: &'static str) {
        UNION_KEYS
    }

    fn decode_members(entries: &Vec<(String, Json)>) -> (res: Result<Union, DecodeError>) {
        let description = decode_optional::<String>(entries, "description")?;
        let closed = decode_or::<bool>(entries, "closed", false)?;
        let refs = decode_required::<Vec<String>>(entries, "refs")?;
        Ok(Union { description, closed, refs })
    }

    proof fn lemma_member_fault_placed(entries: Entries) {
        lemma_member_fault_placed::<String>(entries, "description"@);
        lemma_member_fault_placed::<bool>(entries, "closed"@);
        lemma_member_fault_placed::<Vec<String>>(entries, "refs"@);
    }

    proof fn lemma_stray_member_rejected(entries: Entries) {
        lemma_stray_in_member::<String>(entries, "description"@);
        lemma_stray_in_member::<bool>(entries, "closed"@);
        lemma_stray_in_member::<Vec<String>>(entries, "refs"@);
    }
}

impl Decode for Union {
    /// A [`Union`] that stands alone is decoded from an object with its keys
    /// and no others.
    open spec fn decoding(value: JsonView) -> Result<UnionView, DecodeErrorView> {
        node::<Union>(value, false)
    }

    open spec fn has_stray_key(value: JsonView) -> bool {
        node_has_stray_key::<Union>(value, false)
    }

    fn decode(value: &Json) -> (res: Result<Union, DecodeError>) {
        decode_node::<Union>(value, false)
    }

    proof fn lemma_fault_placed(value: JsonView) {
        lemma_node_fault_placed::<Union>(value, false);
    }

    proof fn lemma_stray_key_rejected(value: JsonView) {
        lemma_node_stray_key_rejected::<Union>(value, false);
    }
}

impl Union {
    /// The entries of an object give a [`Union`] exactly when they give each
    /// of its members: one member that is rejected rejects the node. Each
    /// member of the node is then what the entry under its key gives.
    pub proof fn lemma_members(entries: Entries)
        ensures
            <Union as Node>::members(entries) is Ok <==> {
                &&& optional_member::<String>(entries, "description"@) is Ok
                &&& member_or::<bool>(entries, "closed"@, false) is Ok
                &&& required_member::<Vec<String>>(entries, "refs"@) is Ok
            },
            <Union as Node>::members(entries) matches Ok(node) ==> {
                &&& optional_member::<String>(entries, "description"@) == accepted(node.description)
                &&& member_or::<bool>(entries, "closed"@, false) == accepted(node.closed)
                &&& required_member::<Vec<String>>(entries, "refs"@) == accepted(node.refs)
            },
    {
    }
}
} // verus!
