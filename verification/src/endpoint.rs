//! The endpoints: queries, procedures and subscriptions, with the bodies,
//! messages and errors that they name.

use vstd::prelude::*;
use crate::decode::{accepted, rejected, Decode};
use crate::fault::{DecodeError, DecodeErrorView};
use crate::field::{Object, ObjectView};
use crate::json::{Entries, Json, JsonView};
use crate::leaf::{Ref, RefView, Union, UnionView};
use crate::member::{
    decode_optional, decode_required, lemma_member_fault_placed, lemma_stray_in_member, lists,
    optional_member, required_member, stray_in_member,
};
use crate::node::{
    decode_node, is_held, lemma_node_fault_placed, lemma_node_stray_key_rejected, node,
    node_has_stray_key, texts, Node,
};
use crate::params::{Params, ParamsView};
use crate::tag::{lemma_tag_fault_placed, read_tag, refuse_tag, tag_of, unknown_tag};
use crate::text::same_text;

verus! {

/// An error that an endpoint may answer with.
#[derive(Debug, Clone, PartialEq, Eq)]
pub struct Error {
    /// The short name of the error, without blanks.
    pub name: String,
    /// A description for people.
    pub description: Option<String>,
}

/// The mathematical value of an [`Error`].
pub struct ErrorView {
    pub name: Seq<char>,
    pub description: Option<Seq<char>>,
}

/// What is expected of the keys of an [`Error`].
pub const ERROR_KEYS: &'static str = "one of the keys `name`, `description`";

impl DeepView for Error {
    type V = ErrorView;

    open spec fn deep_view(&self) -> ErrorView {
        ErrorView {
            name: self.name.deep_view(),
            description: self.description.deep_view(),
        }
    }
}

impl Node for Error {
    open spec fn keys() -> Seq<Seq<char>> {
        seq!["name"@, "description"@]
    }

    open spec fn keys_in_words() -> Seq<char> {
        ERROR_KEYS@
    }

    open spec fn members(entries: Entries) -> Result<ErrorView, DecodeErrorView> {
        let name = required_member::<String>(entries, "name"@);
        let description = optional_member::<String>(entries, "description"@);
        if name is Err {
            Err(name->Err_0)
        } else if description is Err {
            Err(description->Err_0)
        } else {
            Ok(
                ErrorView {
                    name: name->Ok_0,
                    description: description->Ok_0,
                },
            )
        }
    }

    open spec fn has_stray_member(entries: Entries) -> bool {
        stray_in_member::<String>(entries, "name"@)
        || stray_in_member::<String>(entries, "description"@)
    }

    fn has_key(key: &str) -> (res: bool) {
        let keys = ["name", "description"];
        assert(texts(keys@) =~= Self::keys());
        is_held(&keys, key)
    }

    fn describe_keys() -> (res: &'static str) {
        ERROR_KEYS
    }

    fn decode_members(entries: &Vec<(String, Json)>) -> (res: Result<Error, DecodeError>) {
        let name = decode_required::<String>(entries, "name")?;
        let description = decode_optional::<String>(entries, "description")?;
        Ok(Error { name, description })
    }

    proof fn lemma_member_fault_placed(entries: Entries) {
        lemma_member_fault_placed::<String>(entries, "name"@);
        lemma_member_fault_placed::<String>(entries, "description"@);
    }

    proof fn lemma_stray_member_rejected(entries: Entries) {
        lemma_stray_in_member::<String>(entries, "name"@);
        lemma_stray_in_member::<String>(entries, "description"@);
    }
}

impl Decode for Error {
    /// An [`Error`] that stands alone is decoded from an object with its keys
    /// and no others.
    open spec fn decoding(value: JsonView) -> Result<ErrorView, DecodeErrorView> {
        node::<Error>(value, false)
    }

    open spec fn has_stray_key(value: JsonView) -> bool {
        node_has_stray_key::<Error>(value, false)
    }

    fn decode(value: &Json) -> (res: Result<Error, DecodeError>) {
        decode_node::<Error>(value, false)
    }

    proof fn lemma_fault_placed(value: JsonView) {
        lemma_node_fault_placed::<Error>(value, false);
    }

    proof fn lemma_stray_key_rejected(value: JsonView) {
        lemma_node_stray_key_rejected::<Error>(value, false);
    }
}

impl Error {
    /// The entries of an object give an [`Error`] exactly when they give each
    /// of its members: one member that is rejected rejects the node. Each
    /// member of the node is then what the entry under its key gives.
    pub proof fn lemma_members(entries: Entries)
        ensures
            <Error as Node>::members(entries) is Ok <==> {
                &&& required_member::<String>(entries, "name"@) is Ok
                &&& optional_member::<String>(entries, "description"@) is Ok
            },
            <Error as Node>::members(entries) matches Ok(node) ==> {
                &&& required_member::<String>(entries, "name"@) == accepted(node.name)
                &&& optional_member::<String>(entries, "description"@) == accepted(node.description)
            },
    {
    }
}

/// The schema of the body of a response: an object or a reference. A union is
/// not allowed here.
#[derive(Debug, Clone)]
pub enum OutputSchema {
    Object(Object),
    Ref(Ref),
}

/// The mathematical value of an [`OutputSchema`].
pub enum OutputSchemaView {
    Object(ObjectView),
    Ref(RefView),
}

/// The vocabulary of the tags of an [`OutputSchema`].
pub const OUTPUT_TAGS: &'static str = "one of the tags `object`, `ref`";

impl DeepView for OutputSchema {
    type V = OutputSchemaView;

    open spec fn deep_view(&self) -> OutputSchemaView {
        match self {
            OutputSchema::Object(node) => OutputSchemaView::Object(node.deep_view()),
            OutputSchema::Ref(node) => OutputSchemaView::Ref(node.deep_view()),
        }
    }
}

impl Decode for OutputSchema {
    /// An [`OutputSchema`] is decoded from an object whose tag selects the
    /// node, which is then decoded from the same object. A tag outside the
    /// vocabulary selects nothing.
    open spec fn decoding(value: JsonView) -> Result<OutputSchemaView, DecodeErrorView> {
        match tag_of(value, OUTPUT_TAGS@) {
            Err(fault) => Err(fault),
            Ok(tag) => if tag == "object"@ {
                match node::<Object>(value, true) {
                    Ok(node) => Ok(OutputSchemaView::Object(node)),
                    Err(fault) => Err(fault),
                }
            } else if tag == "ref"@ {
                match node::<Ref>(value, true) {
                    Ok(node) => Ok(OutputSchemaView::Ref(node)),
                    Err(fault) => Err(fault),
                }
            } else {
                Err(unknown_tag(tag, OUTPUT_TAGS@))
            },
        }
    }

    /// The value holds a stray key where the node that its tag selects does.
    open spec fn has_stray_key(value: JsonView) -> bool {
        tag_of(value, OUTPUT_TAGS@) matches Ok(tag) && (
            (tag == "object"@ && node_has_stray_key::<Object>(value, true))
            || (tag == "ref"@ && node_has_stray_key::<Ref>(value, true))
        )
    }

    fn decode(value: &Json) -> (res: Result<OutputSchema, DecodeError>) {
        let tag = read_tag(value, OUTPUT_TAGS)?;
        if same_text(tag, "object") {
            Ok(OutputSchema::Object(decode_node::<Object>(value, true)?))
        } else if same_text(tag, "ref") {
            Ok(OutputSchema::Ref(decode_node::<Ref>(value, true)?))
        } else {
            Err(refuse_tag(tag, OUTPUT_TAGS))
        }
    }

    proof fn lemma_fault_placed(value: JsonView) {
        lemma_tag_fault_placed(value, OUTPUT_TAGS@);
        lemma_node_fault_placed::<Object>(value, true);
        lemma_node_fault_placed::<Ref>(value, true);
    }

    proof fn lemma_stray_key_rejected(value: JsonView) {
        Self::lemma_tag_selects(value);
        lemma_node_stray_key_rejected::<Object>(value, true);
        lemma_node_stray_key_rejected::<Ref>(value, true);
    }
}

impl OutputSchema {
    /// An object that stands as the body of a response has the required and the nullable
    /// fields that its source lists: a field is required exactly when the
    /// array under `required` holds its name, and nullable exactly when the
    /// array under `nullable` does.
    pub proof fn lemma_object_lists(value: JsonView, name: Seq<char>)
        requires
            OutputSchema::decoding(value) matches Ok(OutputSchemaView::Object(_)),
        ensures
            value matches JsonView::Object(entries) && {
                &&& OutputSchema::decoding(value)->Ok_0->Object_0.is_required(name) <==> lists(
                    entries,
                    "required"@,
                    name,
                )
                &&& OutputSchema::decoding(value)->Ok_0->Object_0.is_nullable(name) <==> lists(
                    entries,
                    "nullable"@,
                    name,
                )
            },
    {
        Self::lemma_variant_bears_tag(value);
        Self::lemma_tag_selects(value);
        Object::lemma_lists_from_source(value, true, name);
    }

    /// The tag decides the variant, and nothing else does: a value with the tag
    /// of a variant is decoded as the node of that variant, and is rejected
    /// where that node rejects it.
    pub proof fn lemma_tag_selects(value: JsonView)
        ensures
            tag_of(value, OUTPUT_TAGS@) == accepted("object"@)
                ==> OutputSchema::decoding(value) == (match node::<Object>(value, true) {
                Ok(node) => Ok(OutputSchemaView::Object(node)),
                Err(fault) => Err(fault),
            }),
            tag_of(value, OUTPUT_TAGS@) == accepted("ref"@)
                ==> OutputSchema::decoding(value) == (match node::<Ref>(value, true) {
                Ok(node) => Ok(OutputSchemaView::Ref(node)),
                Err(fault) => Err(fault),
            }),
    {
        reveal_strlit("object");
        reveal_strlit("ref");
        assert("object"@.len() == 6);
        assert("ref"@.len() == 3);
    }

    /// A value that is decoded as a variant bears the tag of that variant.
    pub proof fn lemma_variant_bears_tag(value: JsonView)
        ensures
            match OutputSchema::decoding(value) {
                Ok(OutputSchemaView::Object(_)) => tag_of(value, OUTPUT_TAGS@) == accepted(
                    "object"@,
                ),
                Ok(OutputSchemaView::Ref(_)) => tag_of(value, OUTPUT_TAGS@) == accepted("ref"@),
                Err(_) => true,
            },
    {
    }

    /// A tag outside the vocabulary is rejected, whatever else the value holds.
    pub proof fn lemma_unknown_tag_rejected(value: JsonView, tag: Seq<char>)
        requires
            tag_of(value, OUTPUT_TAGS@) == accepted(tag),
            tag != "object"@,
            tag != "ref"@,
        ensures
            OutputSchema::decoding(value) == rejected::<OutputSchemaView>(
                unknown_tag(tag, OUTPUT_TAGS@),
            ),
    {
    }

    /// A value without a tag is rejected as the lack of the tag is.
    pub proof fn lemma_tag_needed(value: JsonView)
        ensures
            tag_of(value, OUTPUT_TAGS@) matches Err(fault) ==> OutputSchema::decoding(value)
                == rejected::<OutputSchemaView>(fault),
    {
    }
}

/// The body of a response.
#[derive(Debug, Clone)]
pub struct Output {
    /// The MIME type of the body.
    pub encoding: String,
    /// The schema of the body.
    pub schema: Option<OutputSchema>,
}

/// The mathematical value of an [`Output`].
pub struct OutputView {
    pub encoding: Seq<char>,
    pub schema: Option<OutputSchemaView>,
}

/// What is expected of the keys of an [`Output`].
pub const OUTPUT_KEYS: &'static str = "one of the keys `encoding`, `schema`";

impl DeepView for Output {
    type V = OutputView;

    open spec fn deep_view(&self) -> OutputView {
        OutputView {
            encoding: self.encoding.deep_view(),
            schema: self.schema.deep_view(),
        }
    }
}

impl Node for Output {
    open spec fn keys() -> Seq<Seq<char>> {
        seq!["encoding"@, "schema"@]
    }

    open spec fn keys_in_words() -> Seq<char> {
        OUTPUT_KEYS@
    }

    open spec fn members(entries: Entries) -> Result<OutputView, DecodeErrorView> {
        let encoding = required_member::<String>(entries, "encoding"@);
        let schema = optional_member::<OutputSchema>(entries, "schema"@);
        if encoding is Err {
            Err(encoding->Err_0)
        } else if schema is Err {
            Err(schema->Err_0)
        } else {
            Ok(
                OutputView {
                    encoding: encoding->Ok_0,
                    schema: schema->Ok_0,
                },
            )
        }
    }

    open spec fn has_stray_member(entries: Entries) -> bool {
        stray_in_member::<String>(entries, "encoding"@)
        || stray_in_member::<OutputSchema>(entries, "schema"@)
    }

    fn has_key(key: &str) -> (res: bool) {
        let keys = ["encoding", "schema"];
        assert(texts(keys@) =~= Self::keys());
        is_held(&keys, key)
    }

    fn describe_keys() -> (res: &'static str) {
        OUTPUT_KEYS
    }

    fn decode_members(entries: &Vec<(String, Json)>) -> (res: Result<Output, DecodeError>) {
        let encoding = decode_required::<String>(entries, "encoding")?;
        let schema = decode_optional::<OutputSchema>(entries, "schema")?;
        Ok(Output { encoding, schema })
    }

    proof fn lemma_member_fault_placed(entries: Entries) {
        lemma_member_fault_placed::<String>(entries, "encoding"@);
        lemma_member_fault_placed::<OutputSchema>(entries, "schema"@);
    }

    proof fn lemma_stray_member_rejected(entries: Entries) {
        lemma_stray_in_member::<String>(entries, "encoding"@);
        lemma_stray_in_member::<OutputSchema>(entries, "schema"@);
    }
}

impl Decode for Output {
    /// An [`Output`] that stands alone is decoded from an object with its keys
    /// and no others.
    open spec fn decoding(value: JsonView) -> Result<OutputView, DecodeErrorView> {
        node::<Output>(value, false)
    }

    open spec fn has_stray_key(value: JsonView) -> bool {
        node_has_stray_key::<Output>(value, false)
    }

    fn decode(value: &Json) -> (res: Result<Output, DecodeError>) {
        decode_node::<Output>(value, false)
    }

    proof fn lemma_fault_placed(value: JsonView) {
        lemma_node_fault_placed::<Output>(value, false);
    }

    proof fn lemma_stray_key_rejected(value: JsonView) {
        lemma_node_stray_key_rejected::<Output>(value, false);
    }
}

impl Output {
    /// The entries of an object give an [`Output`] exactly when they give each
    /// of its members: one member that is rejected rejects the node. Each
    /// member of the node is then what the entry under its key gives.
    pub proof fn lemma_members(entries: Entries)
        ensures
            <Output as Node>::members(entries) is Ok <==> {
                &&& required_member::<String>(entries, "encoding"@) is Ok
                &&& optional_member::<OutputSchema>(entries, "schema"@) is Ok
            },
            <Output as Node>::members(entries) matches Ok(node) ==> {
                &&& required_member::<String>(entries, "encoding"@) == accepted(node.encoding)
                &&& optional_member::<OutputSchema>(entries, "schema"@) == accepted(node.schema)
            },
    {
    }
}

/// The schema of the body of a request: an object or a reference. A union is
/// not allowed here.
#[derive(Debug, Clone)]
pub enum InputSchema {
    Object(Object),
    Ref(Ref),
}

/// The mathematical value of an [`InputSchema`].
pub enum InputSchemaView {
    Object(ObjectView),
    Ref(RefView),
}

/// The vocabulary of the tags of an [`InputSchema`].
pub const INPUT_TAGS: &'static str = "one of the tags `object`, `ref`";

impl DeepView for InputSchema {
    type V = InputSchemaView;

    open spec fn deep_view(&self) -> InputSchemaView {
        match self {
            InputSchema::Object(node) => InputSchemaView::Object(node.deep_view()),
            InputSchema::Ref(node) => InputSchemaView::Ref(node.deep_view()),
        }
    }
}

impl Decode for InputSchema {
    /// An [`InputSchema`] is decoded from an object whose tag selects the node,
    /// which is then decoded from the same object. A tag outside the vocabulary
    /// selects nothing.
    open spec fn decoding(value: JsonView) -> Result<InputSchemaView, DecodeErrorView> {
        match tag_of(value, INPUT_TAGS@) {
            Err(fault) => Err(fault),
            Ok(tag) => if tag == "object"@ {
                match node::<Object>(value, true) {
                    Ok(node) => Ok(InputSchemaView::Object(node)),
                    Err(fault) => Err(fault),
                }
            } else if tag == "ref"@ {
                match node::<Ref>(value, true) {
                    Ok(node) => Ok(InputSchemaView::Ref(node)),
                    Err(fault) => Err(fault),
                }
            } else {
                Err(unknown_tag(tag, INPUT_TAGS@))
            },
        }
    }

    /// The value holds a stray key where the node that its tag selects does.
    open spec fn has_stray_key(value: JsonView) -> bool {
        tag_of(value, INPUT_TAGS@) matches Ok(tag) && (
            (tag == "object"@ && node_has_stray_key::<Object>(value, true))
            || (tag == "ref"@ && node_has_stray_key::<Ref>(value, true))
        )
    }

    fn decode(value: &Json) -> (res: Result<InputSchema, DecodeError>) {
        let tag = read_tag(value, INPUT_TAGS)?;
        if same_text(tag, "object") {
            Ok(InputSchema::Object(decode_node::<Object>(value, true)?))
        } else if same_text(tag, "ref") {
            Ok(InputSchema::Ref(decode_node::<Ref>(value, true)?))
        } else {
            Err(refuse_tag(tag, INPUT_TAGS))
        }
    }

    proof fn lemma_fault_placed(value: JsonView) {
        lemma_tag_fault_placed(value, INPUT_TAGS@);
        lemma_node_fault_placed::<Object>(value, true);
        lemma_node_fault_placed::<Ref>(value, true);
    }

    proof fn lemma_stray_key_rejected(value: JsonView) {
        Self::lemma_tag_selects(value);
        lemma_node_stray_key_rejected::<Object>(value, true);
        lemma_node_stray_key_rejected::<Ref>(value, true);
    }
}

impl InputSchema {
    /// An object that stands as the body of a request has the required and the nullable
    /// fields that its source lists: a field is required exactly when the
    /// array under `required` holds its name, and nullable exactly when the
    /// array under `nullable` does.
    pub proof fn lemma_object_lists(value: JsonView, name: Seq<char>)
        requires
            InputSchema::decoding(value) matches Ok(InputSchemaView::Object(_)),
        ensures
            value matches JsonView::Object(entries) && {
                &&& InputSchema::decoding(value)->Ok_0->Object_0.is_required(name) <==> lists(
                    entries,
                    "required"@,
                    name,
                )
                &&& InputSchema::decoding(value)->Ok_0->Object_0.is_nullable(name) <==> lists(
                    entries,
                    "nullable"@,
                    name,
                )
            },
    {
        Self::lemma_variant_bears_tag(value);
        Self::lemma_tag_selects(value);
        Object::lemma_lists_from_source(value, true, name);
    }

    /// The tag decides the variant, and nothing else does: a value with the tag
    /// of a variant is decoded as the node of that variant, and is rejected
    /// where that node rejects it.
    pub proof fn lemma_tag_selects(value: JsonView)
        ensures
            tag_of(value, INPUT_TAGS@) == accepted("object"@)
                ==> InputSchema::decoding(value) == (match node::<Object>(value, true) {
                Ok(node) => Ok(InputSchemaView::Object(node)),
                Err(fault) => Err(fault),
            }),
            tag_of(value, INPUT_TAGS@) == accepted("ref"@)
                ==> InputSchema::decoding(value) == (match node::<Ref>(value, true) {
                Ok(node) => Ok(InputSchemaView::Ref(node)),
                Err(fault) => Err(fault),
            }),
    {
        reveal_strlit("object");
        reveal_strlit("ref");
        assert("object"@.len() == 6);
        assert("ref"@.len() == 3);
    }

    /// A value that is decoded as a variant bears the tag of that variant.
    pub proof fn lemma_variant_bears_tag(value: JsonView)
        ensures
            match InputSchema::decoding(value) {
                Ok(InputSchemaView::Object(_)) => tag_of(value, INPUT_TAGS@) == accepted("object"@),
                Ok(InputSchemaView::Ref(_)) => tag_of(value, INPUT_TAGS@) == accepted("ref"@),
                Err(_) => true,
            },
    {
    }

    /// A tag outside the vocabulary is rejected, whatever else the value holds.
    pub proof fn lemma_unknown_tag_rejected(value: JsonView, tag: Seq<char>)
        requires
            tag_of(value, INPUT_TAGS@) == accepted(tag),
            tag != "object"@,
            tag != "ref"@,
        ensures
            InputSchema::decoding(value) == rejected::<InputSchemaView>(
                unknown_tag(tag, INPUT_TAGS@),
            ),
    {
    }

    /// A value without a tag is rejected as the lack of the tag is.
    pub proof fn lemma_tag_needed(value: JsonView)
        ensures
            tag_of(value, INPUT_TAGS@) matches Err(fault) ==> InputSchema::decoding(value)
                == rejected::<InputSchemaView>(fault),
    {
    }
}

/// The body of a request.
#[derive(Debug, Clone)]
pub struct Input {
    /// The MIME type of the body.
    pub encoding: String,
    /// The schema of the body.
    pub schema: Option<InputSchema>,
}

/// The mathematical value of an [`Input`].
pub struct InputView {
    pub encoding: Seq<char>,
    pub schema: Option<InputSchemaView>,
}

/// What is expected of the keys of an [`Input`].
pub const INPUT_KEYS: &'static str = "one of the keys `encoding`, `schema`";

impl DeepView for Input {
    type V = InputView;

    open spec fn deep_view(&self) -> InputView {
        InputView {
            encoding: self.encoding.deep_view(),
            schema: self.schema.deep_view(),
        }
    }
}

impl Node for Input {
    open spec fn keys() -> Seq<Seq<char>> {
        seq!["encoding"@, "schema"@]
    }

    open spec fn keys_in_words() -> Seq<char> {
        INPUT_KEYS@
    }

    open spec fn members(entries: Entries) -> Result<InputView, DecodeErrorView> {
        let encoding = required_member::<String>(entries, "encoding"@);
        let schema = optional_member::<InputSchema>(entries, "schema"@);
        if encoding is Err {
            Err(encoding->Err_0)
        } else if schema is Err {
            Err(schema->Err_0)
        } else {
            Ok(
                InputView {
                    encoding: encoding->Ok_0,
                    schema: schema->Ok_0,
                },
            )
        }
    }

    open spec fn has_stray_member(entries: Entries) -> bool {
        stray_in_member::<String>(entries, "encoding"@)
        || stray_in_member::<InputSchema>(entries, "schema"@)
    }

    fn has_key(key: &str) -> (res: bool) {
        let keys = ["encoding", "schema"];
        assert(texts(keys@) =~= Self::keys());
        is_held(&keys, key)
    }

    fn describe_keys() -> (res: &'static str) {
        INPUT_KEYS
    }

    fn decode_members(entries: &Vec<(String, Json)>) -> (res: Result<Input, DecodeError>) {
        let encoding = decode_required::<String>(entries, "encoding")?;
        let schema = decode_optional::<InputSchema>(entries, "schema")?;
        Ok(Input { encoding, schema })
    }

    proof fn lemma_member_fault_placed(entries: Entries) {
        lemma_member_fault_placed::<String>(entries, "encoding"@);
        lemma_member_fault_placed::<InputSchema>(entries, "schema"@);
    }

    proof fn lemma_stray_member_rejected(entries: Entries) {
        lemma_stray_in_member::<String>(entries, "encoding"@);
        lemma_stray_in_member::<InputSchema>(entries, "schema"@);
    }
}

impl Decode for Input {
    /// An [`Input`] that stands alone is decoded from an object with its keys
    /// and no others.
    open spec fn decoding(value: JsonView) -> Result<InputView, DecodeErrorView> {
        node::<Input>(value, false)
    }

    open spec fn has_stray_key(value: JsonView) -> bool {
        node_has_stray_key::<Input>(value, false)
    }

    fn decode(value: &Json) -> (res: Result<Input, DecodeError>) {
        decode_node::<Input>(value, false)
    }

    proof fn lemma_fault_placed(value: JsonView) {
        lemma_node_fault_placed::<Input>(value, false);
    }

    proof fn lemma_stray_key_rejected(value: JsonView) {
        lemma_node_stray_key_rejected::<Input>(value, false);
    }
}

impl Input {
    /// The entries of an object give an [`Input`] exactly when they give each
    /// of its members: one member that is rejected rejects the node. Each
    /// member of the node is then what the entry under its key gives.
    pub proof fn lemma_members(entries: Entries)
        ensures
            <Input as Node>::members(entries) is Ok <==> {
                &&& required_member::<String>(entries, "encoding"@) is Ok
                &&& optional_member::<InputSchema>(entries, "schema"@) is Ok
            },
            <Input as Node>::members(entries) matches Ok(node) ==> {
                &&& required_member::<String>(entries, "encoding"@) == accepted(node.encoding)
                &&& optional_member::<InputSchema>(entries, "schema"@) == accepted(node.schema)
            },
    {
    }
}

/// The schema of the messages of a subscription: a union, and nothing else.
#[derive(Debug, Clone, PartialEq, Eq)]
pub enum MessageSchema {
    Union(Union),
}

/// The mathematical value of a [`MessageSchema`].
pub enum MessageSchemaView {
    Union(UnionView),
}

/// The vocabulary of the tags of a [`MessageSchema`].
pub const MESSAGE_TAGS: &'static str = "the tag `union`";

impl DeepView for MessageSchema {
    type V = MessageSchemaView;

    open spec fn deep_view(&self) -> MessageSchemaView {
        match self {
            MessageSchema::Union(node) => MessageSchemaView::Union(node.deep_view()),
        }
    }
}

impl Decode for MessageSchema {
    /// A [`MessageSchema`] is decoded from an object whose tag selects the
    /// node, which is then decoded from the same object. A tag outside the
    /// vocabulary selects nothing.
    open spec fn decoding(value: JsonView) -> Result<MessageSchemaView, DecodeErrorView> {
        match tag_of(value, MESSAGE_TAGS@) {
            Err(fault) => Err(fault),
            Ok(tag) => if tag == "union"@ {
                match node::<Union>(value, true) {
                    Ok(node) => Ok(MessageSchemaView::Union(node)),
                    Err(fault) => Err(fault),
                }
            } else {
                Err(unknown_tag(tag, MESSAGE_TAGS@))
            },
        }
    }

    /// The value holds a stray key where the node that its tag selects does.
    open spec fn has_stray_key(value: JsonView) -> bool {
        tag_of(value, MESSAGE_TAGS@) matches Ok(tag) && tag == "union"@
            && node_has_stray_key::<Union>(value, true)
    }

    fn decode(value: &Json) -> (res: Result<MessageSchema, DecodeError>) {
        let tag = read_tag(value, MESSAGE_TAGS)?;
        if same_text(tag, "union") {
            Ok(MessageSchema::Union(decode_node::<Union>(value, true)?))
        } else {
            Err(refuse_tag(tag, MESSAGE_TAGS))
        }
    }

    proof fn lemma_fault_placed(value: JsonView) {
        lemma_tag_fault_placed(value, MESSAGE_TAGS@);
        lemma_node_fault_placed::<Union>(value, true);
    }

    proof fn lemma_stray_key_rejected(value: JsonView) {
        Self::lemma_tag_selects(value);
        lemma_node_stray_key_rejected::<Union>(value, true);
    }
}

impl MessageSchema {
    /// The tag decides the variant, and nothing else does: a value with the tag
    /// of a variant is decoded as the node of that variant, and is rejected
    /// where that node rejects it.
    pub proof fn lemma_tag_selects(value: JsonView)
        ensures
            tag_of(value, MESSAGE_TAGS@) == accepted("union"@)
                ==> MessageSchema::decoding(value) == (match node::<Union>(value, true) {
                Ok(node) => Ok(MessageSchemaView::Union(node)),
                Err(fault) => Err(fault),
            }),
    {
    }

    /// A value that is decoded as a variant bears the tag of that variant.
    pub proof fn lemma_variant_bears_tag(value: JsonView)
        ensures
            match MessageSchema::decoding(value) {
                Ok(MessageSchemaView::Union(_)) => tag_of(value, MESSAGE_TAGS@) == accepted(
                    "union"@,
                ),
                Err(_) => true,
            },
    {
    }

    /// A tag outside the vocabulary is rejected, whatever else the value holds.
    pub proof fn lemma_unknown_tag_rejected(value: JsonView, tag: Seq<char>)
        requires
            tag_of(value, MESSAGE_TAGS@) == accepted(tag),
            tag != "union"@,
        ensures
            MessageSchema::decoding(value) == rejected::<MessageSchemaView>(
                unknown_tag(tag, MESSAGE_TAGS@),
            ),
    {
    }

    /// A value without a tag is rejected as the lack of the tag is.
    pub proof fn lemma_tag_needed(value: JsonView)
        ensures
            tag_of(value, MESSAGE_TAGS@) matches Err(fault) ==> MessageSchema::decoding(value)
                == rejected::<MessageSchemaView>(fault),
    {
    }
}

/// The messages that a subscription sends.
#[derive(Debug, Clone, PartialEq, Eq)]
pub struct Message {
    /// The schema of each message.
    pub schema: MessageSchema,
}

/// The mathematical value of a [`Message`].
pub struct MessageView {
    pub schema: MessageSchemaView,
}

/// What is expected of the keys of a [`Message`].
pub const MESSAGE_KEYS: &'static str = "the key `schema`";

impl DeepView for Message {
    type V = MessageView;

    open spec fn deep_view(&self) -> MessageView {
        MessageView {
            schema: self.schema.deep_view(),
        }
    }
}

impl Node for Message {
    open spec fn keys() -> Seq<Seq<char>> {
        seq!["schema"@]
    }

    open spec fn keys_in_words() -> Seq<char> {
        MESSAGE_KEYS@
    }

    open spec fn members(entries: Entries) -> Result<MessageView, DecodeErrorView> {
        let schema = required_member::<MessageSchema>(entries, "schema"@);
        if schema is Err {
            Err(schema->Err_0)
        } else {
            Ok(
                MessageView {
                    schema: schema->Ok_0,
                },
            )
        }
    }

    open spec fn has_stray_member(entries: Entries) -> bool {
        stray_in_member::<MessageSchema>(entries, "schema"@)
    }

    fn has_key(key: &str) -> (res: bool) {
        let keys = ["schema"];
        assert(texts(keys@) =~= Self::keys());
        is_held(&keys, key)
    }

    fn describe_keys() -> (res: &'static str) {
        MESSAGE_KEYS
    }

    fn decode_members(entries: &Vec<(String, Json)>) -> (res: Result<Message, DecodeError>) {
        let schema = decode_required::<MessageSchema>(entries, "schema")?;
        Ok(Message { schema })
    }

    proof fn lemma_member_fault_placed(entries: Entries) {
        lemma_member_fault_placed::<MessageSchema>(entries, "schema"@);
    }

    proof fn lemma_stray_member_rejected(entries: Entries) {
        lemma_stray_in_member::<MessageSchema>(entries, "schema"@);
    }
}

impl Decode for Message {
    /// A [`Message`] that stands alone is decoded from an object with its keys
    /// and no others.
    open spec fn decoding(value: JsonView) -> Result<MessageView, DecodeErrorView> {
        node::<Message>(value, false)
    }

    open spec fn has_stray_key(value: JsonView) -> bool {
        node_has_stray_key::<Message>(value, false)
    }

    fn decode(value: &Json) -> (res: Result<Message, DecodeError>) {
        decode_node::<Message>(value, false)
    }

    proof fn lemma_fault_placed(value: JsonView) {
        lemma_node_fault_placed::<Message>(value, false);
    }

    proof fn lemma_stray_key_rejected(value: JsonView) {
        lemma_node_stray_key_rejected::<Message>(value, false);
    }
}

impl Message {
    /// The entries of an object give a [`Message`] exactly when they give each
    /// of its members: one member that is rejected rejects the node. Each
    /// member of the node is then what the entry under its key gives.
    pub proof fn lemma_members(entries: Entries)
        ensures
            <Message as Node>::members(entries) is Ok <==> {
                &&& required_member::<MessageSchema>(entries, "schema"@) is Ok
            },
            <Message as Node>::members(entries) matches Ok(node) ==> {
                &&& required_member::<MessageSchema>(entries, "schema"@) == accepted(node.schema)
            },
    {
    }
}

/// An endpoint that reads: a request without a body, and a response.
#[derive(Debug, Clone)]
pub struct Query {
    /// A description for people.
    pub description: Option<String>,
    /// The parameters of the request.
    pub parameters: Option<Params>,
    /// The body of the response.
    pub output: Option<Output>,
    /// The errors that the endpoint may answer with, in the order of the
    /// document.
    pub errors: Option<Vec<Error>>,
}

/// The mathematical value of a [`Query`].
pub struct QueryView {
    pub description: Option<Seq<char>>,
    pub parameters: Option<ParamsView>,
    pub output: Option<OutputView>,
    pub errors: Option<Seq<ErrorView>>,
}

/// What is expected of the keys of a [`Query`].
pub const QUERY_KEYS: &'static str =
    "one of the keys `description`, `parameters`, `output`, `errors`";

impl DeepView for Query {
    type V = QueryView;

    open spec fn deep_view(&self) -> QueryView {
        QueryView {
            description: self.description.deep_view(),
            parameters: self.parameters.deep_view(),
            output: self.output.deep_view(),
            errors: self.errors.deep_view(),
        }
    }
}

impl Node for Query {
    open spec fn keys() -> Seq<Seq<char>> {
        seq!["description"@, "parameters"@, "output"@, "errors"@]
    }

    open spec fn keys_in_words() -> Seq<char> {
        QUERY_KEYS@
    }

    open spec fn members(entries: Entries) -> Result<QueryView, DecodeErrorView> {
        let description = optional_member::<String>(entries, "description"@);
        let parameters = optional_member::<Params>(entries, "parameters"@);
        let output = optional_member::<Output>(entries, "output"@);
        let errors = optional_member::<Vec<Error>>(entries, "errors"@);
        if description is Err {
            Err(description->Err_0)
        } else if parameters is Err {
            Err(parameters->Err_0)
        } else if output is Err {
            Err(output->Err_0)
        } else if errors is Err {
            Err(errors->Err_0)
        } else {
            Ok(
                QueryView {
                    description: description->Ok_0,
                    parameters: parameters->Ok_0,
                    output: output->Ok_0,
                    errors: errors->Ok_0,
                },
            )
        }
    }

    open spec fn has_stray_member(entries: Entries) -> bool {
        stray_in_member::<String>(entries, "description"@)
        || stray_in_member::<Params>(entries, "parameters"@)
        || stray_in_member::<Output>(entries, "output"@)
        || stray_in_member::<Vec<Error>>(entries, "errors"@)
    }

    fn has_key(key: &str) -> (res: bool) {
        let keys = ["description", "parameters", "output", "errors"];
        assert(texts(keys@) =~= Self::keys());
        is_held(&keys, key)
    }

    fn describe_keys() -> (res: &'static str) {
        QUERY_KEYS
    }

    fn decode_members(entries: &Vec<(String, Json)>) -> (res: Result<Query, DecodeError>) {
        let description = decode_optional::<String>(entries, "description")?;
        let parameters = decode_optional::<Params>(entries, "parameters")?;
        let output = decode_optional::<Output>(entries, "output")?;
        let errors = decode_optional::<Vec<Error>>(entries, "errors")?;
        Ok(Query { description, parameters, output, errors })
    }

    proof fn lemma_member_fault_placed(entries: Entries) {
        lemma_member_fault_placed::<String>(entries, "description"@);
        lemma_member_fault_placed::<Params>(entries, "parameters"@);
        lemma_member_fault_placed::<Output>(entries, "output"@);
        lemma_member_fault_placed::<Vec<Error>>(entries, "errors"@);
    }

    proof fn lemma_stray_member_rejected(entries: Entries) {
        lemma_stray_in_member::<String>(entries, "description"@);
        lemma_stray_in_member::<Params>(entries, "parameters"@);
        lemma_stray_in_member::<Output>(entries, "output"@);
        lemma_stray_in_member::<Vec<Error>>(entries, "errors"@);
    }
}

impl Decode for Query {
    /// A [`Query`] that stands alone is decoded from an object with its keys
    /// and no others.
    open spec fn decoding(value: JsonView) -> Result<QueryView, DecodeErrorView> {
        node::<Query>(value, false)
    }

    open spec fn has_stray_key(value: JsonView) -> bool {
        node_has_stray_key::<Query>(value, false)
    }

    fn decode(value: &Json) -> (res: Result<Query, DecodeError>) {
        decode_node::<Query>(value, false)
    }

    proof fn lemma_fault_placed(value: JsonView) {
        lemma_node_fault_placed::<Query>(value, false);
    }

    proof fn lemma_stray_key_rejected(value: JsonView) {
        lemma_node_stray_key_rejected::<Query>(value, false);
    }
}

impl Query {
    /// The entries of an object give a [`Query`] exactly when they give each of
    /// its members: one member that is rejected rejects the node. Each member
    /// of the node is then what the entry under its key gives.
    pub proof fn lemma_members(entries: Entries)
        ensures
            <Query as Node>::members(entries) is Ok <==> {
                &&& optional_member::<String>(entries, "description"@) is Ok
                &&& optional_member::<Params>(entries, "parameters"@) is Ok
                &&& optional_member::<Output>(entries, "output"@) is Ok
                &&& optional_member::<Vec<Error>>(entries, "errors"@) is Ok
            },
            <Query as Node>::members(entries) matches Ok(node) ==> {
                &&& optional_member::<String>(entries, "description"@) == accepted(node.description)
                &&& optional_member::<Params>(entries, "parameters"@) == accepted(node.parameters)
                &&& optional_member::<Output>(entries, "output"@) == accepted(node.output)
                &&& optional_member::<Vec<Error>>(entries, "errors"@) == accepted(node.errors)
            },
    {
    }
}

/// An endpoint that writes: a request with a body, and a response.
#[derive(Debug, Clone)]
pub struct Procedure {
    /// A description for people.
    pub description: Option<String>,
    /// The body of the response.
    pub output: Option<Output>,
    /// The body of the request.
    pub input: Option<Input>,
    /// The errors that the endpoint may answer with, in the order of the
    /// document.
    pub errors: Option<Vec<Error>>,
}

/// The mathematical value of a [`Procedure`].
pub struct ProcedureView {
    pub description: Option<Seq<char>>,
    pub output: Option<OutputView>,
    pub input: Option<InputView>,
    pub errors: Option<Seq<ErrorView>>,
}

/// What is expected of the keys of a [`Procedure`].
pub const PROCEDURE_KEYS: &'static str =
    "one of the keys `description`, `output`, `input`, `errors`";

impl DeepView for Procedure {
    type V = ProcedureView;

    open spec fn deep_view(&self) -> ProcedureView {
        ProcedureView {
            description: self.description.deep_view(),
            output: self.output.deep_view(),
            input: self.input.deep_view(),
            errors: self.errors.deep_view(),
        }
    }
}

impl Node for Procedure {
    open spec fn keys() -> Seq<Seq<char>> {
        seq!["description"@, "output"@, "input"@, "errors"@]
    }

    open spec fn keys_in_words() -> Seq<char> {
        PROCEDURE_KEYS@
    }

    open spec fn members(entries: Entries) -> Result<ProcedureView, DecodeErrorView> {
        let description = optional_member::<String>(entries, "description"@);
        let output = optional_member::<Output>(entries, "output"@);
        let input = optional_member::<Input>(entries, "input"@);
        let errors = optional_member::<Vec<Error>>(entries, "errors"@);
        if description is Err {
            Err(description->Err_0)
        } else if output is Err {
            Err(output->Err_0)
        } else if input is Err {
            Err(input->Err_0)
        } else if errors is Err {
            Err(errors->Err_0)
        } else {
            Ok(
                ProcedureView {
                    description: description->Ok_0,
                    output: output->Ok_0,
                    input: input->Ok_0,
                    errors: errors->Ok_0,
                },
            )
        }
    }

    open spec fn has_stray_member(entries: Entries) -> bool {
        stray_in_member::<String>(entries, "description"@)
        || stray_in_member::<Output>(entries, "output"@)
        || stray_in_member::<Input>(entries, "input"@)
        || stray_in_member::<Vec<Error>>(entries, "errors"@)
    }

    fn has_key(key: &str) -> (res: bool) {
        let keys = ["description", "output", "input", "errors"];
        assert(texts(keys@) =~= Self::keys());
        is_held(&keys, key)
    }

    fn describe_keys() -> (res: &'static str) {
        PROCEDURE_KEYS
    }

    fn decode_members(entries: &Vec<(String, Json)>) -> (res: Result<Procedure, DecodeError>) {
        let description = decode_optional::<String>(entries, "description")?;
        let output = decode_optional::<Output>(entries, "output")?;
        let input = decode_optional::<Input>(entries, "input")?;
        let errors = decode_optional::<Vec<Error>>(entries, "errors")?;
        Ok(Procedure { description, output, input, errors })
    }

    proof fn lemma_member_fault_placed(entries: Entries) {
        lemma_member_fault_placed::<String>(entries, "description"@);
        lemma_member_fault_placed::<Output>(entries, "output"@);
        lemma_member_fault_placed::<Input>(entries, "input"@);
        lemma_member_fault_placed::<Vec<Error>>(entries, "errors"@);
    }

    proof fn lemma_stray_member_rejected(entries: Entries) {
        lemma_stray_in_member::<String>(entries, "description"@);
        lemma_stray_in_member::<Output>(entries, "output"@);
        lemma_stray_in_member::<Input>(entries, "input"@);
        lemma_stray_in_member::<Vec<Error>>(entries, "errors"@);
    }
}

impl Decode for Procedure {
    /// A [`Procedure`] that stands alone is decoded from an object with its
    /// keys and no others.
    open spec fn decoding(value: JsonView) -> Result<ProcedureView, DecodeErrorView> {
        node::<Procedure>(value, false)
    }

    open spec fn has_stray_key(value: JsonView) -> bool {
        node_has_stray_key::<Procedure>(value, false)
    }

    fn decode(value: &Json) -> (res: Result<Procedure, DecodeError>) {
        decode_node::<Procedure>(value, false)
    }

    proof fn lemma_fault_placed(value: JsonView) {
        lemma_node_fault_placed::<Procedure>(value, false);
    }

    proof fn lemma_stray_key_rejected(value: JsonView) {
        lemma_node_stray_key_rejected::<Procedure>(value, false);
    }
}

impl Procedure {
    /// The entries of an object give a [`Procedure`] exactly when they give
    /// each of its members: one member that is rejected rejects the node. Each
    /// member of the node is then what the entry under its key gives.
    pub proof fn lemma_members(entries: Entries)
        ensures
            <Procedure as Node>::members(entries) is Ok <==> {
                &&& optional_member::<String>(entries, "description"@) is Ok
                &&& optional_member::<Output>(entries, "output"@) is Ok
                &&& optional_member::<Input>(entries, "input"@) is Ok
                &&& optional_member::<Vec<Error>>(entries, "errors"@) is Ok
            },
            <Procedure as Node>::members(entries) matches Ok(node) ==> {
                &&& optional_member::<String>(entries, "description"@) == accepted(node.description)
                &&& optional_member::<Output>(entries, "output"@) == accepted(node.output)
                &&& optional_member::<Input>(entries, "input"@) == accepted(node.input)
                &&& optional_member::<Vec<Error>>(entries, "errors"@) == accepted(node.errors)
            },
    {
    }
}

/// An endpoint that sends a stream of messages.
#[derive(Debug, Clone)]
pub struct Subscription {
    /// A description for people.
    pub description: Option<String>,
    /// The parameters of the request.
    pub parameters: Option<Params>,
    /// The messages that are sent.
    pub message: Option<Message>,
    /// The errors that the endpoint may answer with, in the order of the
    /// document.
    pub errors: Option<Vec<Error>>,
}

/// The mathematical value of a [`Subscription`].
pub struct SubscriptionView {
    pub description: Option<Seq<char>>,
    pub parameters: Option<ParamsView>,
    pub message: Option<MessageView>,
    pub errors: Option<Seq<ErrorView>>,
}

/// What is expected of the keys of a [`Subscription`].
pub const SUBSCRIPTION_KEYS: &'static str =
    "one of the keys `description`, `parameters`, `message`, `errors`";

impl DeepView for Subscription {
    type V = SubscriptionView;

    open spec fn deep_view(&self) -> SubscriptionView {
        SubscriptionView {
            description: self.description.deep_view(),
            parameters: self.parameters.deep_view(),
            message: self.message.deep_view(),
            errors: self.errors.deep_view(),
        }
    }
}

impl Node for Subscription {
    open spec fn keys() -> Seq<Seq<char>> {
        seq!["description"@, "parameters"@, "message"@, "errors"@]
    }

    open spec fn keys_in_words() -> Seq<char> {
        SUBSCRIPTION_KEYS@
    }

    open spec fn members(entries: Entries) -> Result<SubscriptionView, DecodeErrorView> {
        let description = optional_member::<String>(entries, "description"@);
        let parameters = optional_member::<Params>(entries, "parameters"@);
        let message = optional_member::<Message>(entries, "message"@);
        let errors = optional_member::<Vec<Error>>(entries, "errors"@);
        if description is Err {
            Err(description->Err_0)
        } else if parameters is Err {
            Err(parameters->Err_0)
        } else if message is Err {
            Err(message->Err_0)
        } else if errors is Err {
            Err(errors->Err_0)
        } else {
            Ok(
                SubscriptionView {
                    description: description->Ok_0,
                    parameters: parameters->Ok_0,
                    message: message->Ok_0,
                    errors: errors->Ok_0,
                },
            )
        }
    }

    open spec fn has_stray_member(entries: Entries) -> bool {
        stray_in_member::<String>(entries, "description"@)
        || stray_in_member::<Params>(entries, "parameters"@)
        || stray_in_member::<Message>(entries, "message"@)
        || stray_in_member::<Vec<Error>>(entries, "errors"@)
    }

    fn has_key(key: &str) -> (res: bool) {
        let keys = ["description", "parameters", "message", "errors"];
        assert(texts(keys@) =~= Self::keys());
        is_held(&keys, key)
    }

    fn describe_keys() -> (res: &'static str) {
        SUBSCRIPTION_KEYS
    }

    fn decode_members(entries: &Vec<(String, Json)>) -> (res: Result<Subscription, DecodeError>) {
        let description = decode_optional::<String>(entries, "description")?;
        let parameters = decode_optional::<Params>(entries, "parameters")?;
        let message = decode_optional::<Message>(entries, "message")?;
        let errors = decode_optional::<Vec<Error>>(entries, "errors")?;
        Ok(Subscription { description, parameters, message, errors })
    }

    proof fn lemma_member_fault_placed(entries: Entries) {
        lemma_member_fault_placed::<String>(entries, "description"@);
        lemma_member_fault_placed::<Params>(entries, "parameters"@);
        lemma_member_fault_placed::<Message>(entries, "message"@);
        lemma_member_fault_placed::<Vec<Error>>(entries, "errors"@);
    }

    proof fn lemma_stray_member_rejected(entries: Entries) {
        lemma_stray_in_member::<String>(entries, "description"@);
        lemma_stray_in_member::<Params>(entries, "parameters"@);
        lemma_stray_in_member::<Message>(entries, "message"@);
        lemma_stray_in_member::<Vec<Error>>(entries, "errors"@);
    }
}

impl Decode for Subscription {
    /// A [`Subscription`] that stands alone is decoded from an object with its
    /// keys and no others.
    open spec fn decoding(value: JsonView) -> Result<SubscriptionView, DecodeErrorView> {
        node::<Subscription>(value, false)
    }

    open spec fn has_stray_key(value: JsonView) -> bool {
        node_has_stray_key::<Subscription>(value, false)
    }

    fn decode(value: &Json) -> (res: Result<Subscription, DecodeError>) {
        decode_node::<Subscription>(value, false)
    }

    proof fn lemma_fault_placed(value: JsonView) {
        lemma_node_fault_placed::<Subscription>(value, false);
    }

    proof fn lemma_stray_key_rejected(value: JsonView) {
        lemma_node_stray_key_rejected::<Subscription>(value, false);
    }
}

impl Subscription {
    /// The entries of an object give a [`Subscription`] exactly when they give
    /// each of its members: one member that is rejected rejects the node. Each
    /// member of the node is then what the entry under its key gives.
    pub proof fn lemma_members(entries: Entries)
        ensures
            <Subscription as Node>::members(entries) is Ok <==> {
                &&& optional_member::<String>(entries, "description"@) is Ok
                &&& optional_member::<Params>(entries, "parameters"@) is Ok
                &&& optional_member::<Message>(entries, "message"@) is Ok
                &&& optional_member::<Vec<Error>>(entries, "errors"@) is Ok
            },
            <Subscription as Node>::members(entries) matches Ok(node) ==> {
                &&& optional_member::<String>(entries, "description"@) == accepted(node.description)
                &&& optional_member::<Params>(entries, "parameters"@) == accepted(node.parameters)
                &&& optional_member::<Message>(entries, "message"@) == accepted(node.message)
                &&& optional_member::<Vec<Error>>(entries, "errors"@) == accepted(node.errors)
            },
    {
    }
}
} // verus!
