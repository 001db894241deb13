//! Nodes: the records of the schema language. A node is decoded from an
//! object of which every key is known to the node and none occurs twice.

use vstd::prelude::*;
use crate::decode::{outcome, rejected};
use crate::fault::{leads, Cause, CauseView, DecodeError, DecodeErrorView};
use crate::json::{Entries, Json, JsonView};
use crate::least::{least, lemma_least, lemma_least_absent, lemma_least_found};
use crate::text::same_text;

verus! {

/// The key whose value selects the node at a position that allows several.
pub const TAG: &'static str = "type";

/// What is expected where a node stands.
pub const AN_OBJECT: &'static str = "an object";

/// What is expected of the keys of every object that is a node.
pub const EACH_KEY_ONCE: &'static str = "each key once";

/// A record of the schema language: named members, decoded from the entries
/// of an object.
pub trait Node: DeepView + Sized {
    /// The keys of the node: the names of its members as a document writes
    /// them.
    spec fn keys() -> Seq<Seq<char>>;

    /// What is expected of the keys of the node, in words.
    spec fn keys_in_words() -> Seq<char>;

    /// What the entries of an object give as the members of the node. The
    /// members are decoded in the order of their declaration, and the first
    /// that is rejected rejects the node.
    spec fn members(entries: Entries) -> Result<Self::V, DecodeErrorView>;

    /// Whether the value of one of the members holds, at any depth, a node
    /// with a key that the node does not allow.
    spec fn has_stray_member(entries: Entries) -> bool;

    /// Whether `key` is a key of the node.
    fn has_key(key: &str) -> (res: bool)
        ensures
            res == Self::keys().contains(key@),
    ;

    /// What is expected of the keys of the node, in words.
    fn describe_keys() -> (res: &'static str)
        ensures
            res@ == Self::keys_in_words(),
    ;

    /// Decodes the members of the node from the entries of an object.
    fn decode_members(entries: &Vec<(String, Json)>) -> (res: Result<Self, DecodeError>)
        ensures
            outcome(res) == Self::members(entries.deep_view()),
    ;

    /// The path of the fault of a member leads from the object of the
    /// entries to a value inside it.
    proof fn lemma_member_fault_placed(entries: Entries)
        ensures
            Self::members(entries) matches Err(fault) ==> leads(
                JsonView::Object(entries),
                fault.path,
            ),
    ;

    /// A member that holds a stray key rejects the node, unless a key that
    /// occurs twice has rejected the object before.
    proof fn lemma_stray_member_rejected(entries: Entries)
        ensures
            Self::has_stray_member(entries) ==> Self::members(entries) is Err || some_repeated(
                entries,
            ),
    ;
}

/// The node without members: an object that holds no key of its own. It is
/// what stands under a tag that selects a variant without a node.
#[derive(Debug, Clone, Copy, PartialEq, Eq)]
pub struct NoMembers;

/// What is expected of the keys of a [`NoMembers`].
pub const NO_KEYS: &'static str = "no key of its own";

impl DeepView for NoMembers {
    type V = NoMembers;

    open spec fn deep_view(&self) -> NoMembers {
        *self
    }
}

impl Node for NoMembers {
    open spec fn keys() -> Seq<Seq<char>> {
        Seq::empty()
    }

    open spec fn keys_in_words() -> Seq<char> {
        NO_KEYS@
    }

    open spec fn members(entries: Entries) -> Result<NoMembers, DecodeErrorView> {
        Ok(NoMembers)
    }

    open spec fn has_stray_member(entries: Entries) -> bool {
        false
    }

    fn has_key(key: &str) -> (res: bool) {
        false
    }

    fn describe_keys() -> (res: &'static str) {
        NO_KEYS
    }

    fn decode_members(entries: &Vec<(String, Json)>) -> (res: Result<NoMembers, DecodeError>) {
        Ok(NoMembers)
    }

    proof fn lemma_member_fault_placed(entries: Entries) {
    }

    proof fn lemma_stray_member_rejected(entries: Entries) {
    }
}

/// The strings as sequences of characters.
pub open spec fn texts(keys: Seq<&'static str>) -> Seq<Seq<char>> {
    Seq::new(keys.len(), |i: int| keys[i]@)
}

/// Whether `key` is one of `keys`.
pub fn is_held(keys: &[&'static str], key: &str) -> (res: bool)
    ensures
        res == texts(keys@).contains(key@),
{
    let mut i: usize = 0;
    while i < keys.len()
        invariant
            i <= keys@.len(),
            forall|m: int| 0 <= m < i ==> (#[trigger] keys@[m])@ != key@,
        decreases keys@.len() - i,
    {
        if same_text(keys[i], key) {
            assert(texts(keys@)[i as int] == key@);
            return true;
        }
        i = i + 1;
    }
    proof {
        if texts(keys@).contains(key@) {
            let m = choose|m: int| 0 <= m < texts(keys@).len() && texts(keys@)[m] == key@;
            assert(keys@[m]@ == key@);
        }
    }
    false
}

/// The name and the value of an entry, without their representation.
pub proof fn lemma_entry(entries: &Vec<(String, Json)>, i: int)
    requires
        0 <= i < entries@.len(),
    ensures
        entries.deep_view().len() == entries@.len(),
        entries.deep_view()[i] == (entries@[i].0@, entries@[i].1.deep_view()),
{
    assert(entries.deep_view()[i] == entries@[i].deep_view());
}

/// The property of a position that the entry there has the name `name`.
pub open spec fn named_at(entries: Entries, name: Seq<char>) -> spec_fn(int) -> bool {
    |i: int| entries[i].0 == name
}

/// The position of the first entry named `name`.
pub open spec fn position(entries: Entries, name: Seq<char>) -> Option<int> {
    least(named_at(entries, name), entries.len() as int)
}

/// The value of the first entry named `name`.
pub open spec fn member(entries: Entries, name: Seq<char>) -> Option<JsonView> {
    match position(entries, name) {
        Some(i) => Some(entries[i].1),
        None => None,
    }
}

/// Finds the first entry named `name`.
pub fn find(entries: &Vec<(String, Json)>, name: &str) -> (res: Option<usize>)
    ensures
        match res {
            Some(i) => {
                &&& i < entries@.len()
                &&& position(entries.deep_view(), name@) == Some(i as int)
                &&& member(entries.deep_view(), name@) == Some(entries@[i as int].1.deep_view())
            },
            None => {
                &&& position(entries.deep_view(), name@) is None
                &&& member(entries.deep_view(), name@) is None
            },
        },
{
    let ghost p = named_at(entries.deep_view(), name@);
    let mut i: usize = 0;
    while i < entries.len()
        invariant
            i <= entries@.len(),
            p == named_at(entries.deep_view(), name@),
            forall|m: int| 0 <= m < i ==> !#[trigger] p(m),
        decreases entries@.len() - i,
    {
        proof {
            lemma_entry(entries, i as int);
        }
        if same_text(entries[i].0.as_str(), name) {
            proof {
                assert(p(i as int));
                lemma_least_found(p, entries@.len() as int, i as int);
            }
            return Some(i);
        }
        assert(!p(i as int));
        i = i + 1;
    }
    proof {
        lemma_least_absent(p, entries@.len() as int);
    }
    None
}

/// Whether a node with the keys `keys` allows `key`. A node that was selected
/// by a tag allows the key of the tag beside its own.
pub open spec fn allowed(keys: Seq<Seq<char>>, tagged: bool, key: Seq<char>) -> bool {
    (tagged && key == TAG@) || keys.contains(key)
}

/// Whether the name of the entry at `i` stands at an earlier entry too.
pub open spec fn repeated(entries: Entries, i: int) -> bool {
    exists|m: int| 0 <= m < i && (#[trigger] entries[m]).0 == entries[i].0
}

/// Whether some name stands at two of the entries.
pub open spec fn some_repeated(entries: Entries) -> bool {
    exists|i: int| 0 <= i < entries.len() && #[trigger] repeated(entries, i)
}

/// The property of a position that the key there is not allowed or is
/// repeated.
pub open spec fn refused_at(entries: Entries, keys: Seq<Seq<char>>, tagged: bool) -> spec_fn(
    int,
) -> bool {
    |i: int| !allowed(keys, tagged, entries[i].0) || repeated(entries, i)
}

/// The entries of a node with the keys `keys`: `value` is an object, each of
/// its keys is allowed, and none occurs twice. The first entry in the order
/// of the document that breaks this is the one reported.
pub open spec fn strict_entries(
    value: JsonView,
    keys: Seq<Seq<char>>,
    tagged: bool,
    expected: Seq<char>,
) -> Result<Entries, DecodeErrorView> {
    match value {
        JsonView::Object(entries) => match least(
            refused_at(entries, keys, tagged),
            entries.len() as int,
        ) {
            Some(i) => if !allowed(keys, tagged, entries[i].0) {
                Err(DecodeErrorView::here(expected, CauseView::UnknownKey(entries[i].0)))
            } else {
                Err(DecodeErrorView::here(EACH_KEY_ONCE@, CauseView::DuplicateKey(entries[i].0)))
            },
            None => Ok(entries),
        },
        _ => Err(DecodeErrorView::here(AN_OBJECT@, CauseView::WrongShape(value.shape()))),
    }
}

/// What decoding `value` as the node `N` gives. `tagged` says that the node
/// was selected by a tag, whose key it then allows beside its own.
pub open spec fn node<N: Node>(value: JsonView, tagged: bool) -> Result<N::V, DecodeErrorView> {
    match strict_entries(value, N::keys(), tagged, N::keys_in_words()) {
        Ok(entries) => N::members(entries),
        Err(fault) => Err(fault),
    }
}

/// Whether `value`, read as the node `N`, holds a stray key: a key of its own
/// that `N` does not allow, or one at any depth in the value of a member.
pub open spec fn node_has_stray_key<N: Node>(value: JsonView, tagged: bool) -> bool {
    value matches JsonView::Object(entries) && (N::has_stray_member(entries) || exists|i: int|
        0 <= i < entries.len() && !allowed(N::keys(), tagged, (#[trigger] entries[i]).0))
}

/// Whether the name of the entry at `i` stands at an earlier entry too.
pub fn is_repeated(entries: &Vec<(String, Json)>, i: usize) -> (res: bool)
    requires
        i < entries@.len(),
    ensures
        res == repeated(entries.deep_view(), i as int),
{
    proof {
        lemma_entry(entries, i as int);
    }
    let mut m: usize = 0;
    while m < i
        invariant
            m <= i,
            i < entries@.len(),
            entries.deep_view()[i as int].0 == entries@[i as int].0@,
            forall|k: int|
                0 <= k < m ==> (#[trigger] entries.deep_view()[k]).0 != entries@[i as int].0@,
        decreases i - m,
    {
        proof {
            lemma_entry(entries, m as int);
        }
        if same_text(entries[m].0.as_str(), entries[i].0.as_str()) {
            return true;
        }
        m = m + 1;
    }
    false
}

/// Takes `value` as the node `N` and gives its entries.
pub fn read_entries<'a, N: Node>(
    value: &'a Json,
    tagged: bool,
) -> (res: Result<&'a Vec<(String, Json)>, DecodeError>)
    ensures
        outcome(res) == strict_entries(value.deep_view(), N::keys(), tagged, N::keys_in_words()),
{
    match value {
        Json::Object(entries) => {
            proof {
                value.lemma_parts();
            }
            let ghost p = refused_at(entries.deep_view(), N::keys(), tagged);
            let mut i: usize = 0;
            while i < entries.len()
                invariant
                    i <= entries@.len(),
                    value.deep_view() == JsonView::Object(entries.deep_view()),
                    p == refused_at(entries.deep_view(), N::keys(), tagged),
                    forall|m: int| 0 <= m < i ==> !#[trigger] p(m),
                decreases entries@.len() - i,
            {
                proof {
                    lemma_entry(entries, i as int);
                }
                let key = entries[i].0.as_str();
                if !(tagged && same_text(key, TAG)) && !N::has_key(key) {
                    proof {
                        assert(p(i as int));
                        lemma_least_found(p, entries@.len() as int, i as int);
                    }
                    return Err(
                        DecodeError::here(
                            N::describe_keys(),
                            Cause::UnknownKey(entries[i].0.clone()),
                        ),
                    );
                }
                if is_repeated(entries, i) {
                    proof {
                        assert(p(i as int));
                        lemma_least_found(p, entries@.len() as int, i as int);
                    }
                    return Err(
                        DecodeError::here(
                            EACH_KEY_ONCE,
                            Cause::DuplicateKey(entries[i].0.clone()),
                        ),
                    );
                }
                assert(!p(i as int));
                i = i + 1;
            }
            proof {
                lemma_least_absent(p, entries@.len() as int);
            }
            Ok(entries)
        },
        _ => Err(DecodeError::here(AN_OBJECT, Cause::WrongShape(value.shape()))),
    }
}

/// Decodes `value` as the node `N`, selected by a tag or standing alone.
pub fn decode_node<N: Node>(value: &Json, tagged: bool) -> (res: Result<N, DecodeError>)
    ensures
        outcome(res) == node::<N>(value.deep_view(), tagged),
{
    let entries = read_entries::<N>(value, tagged)?;
    N::decode_members(entries)
}

/// An object is taken as a node exactly when each of its keys is allowed and
/// none occurs twice; its entries are then those of the object.
pub proof fn lemma_strict_entries(
    value: JsonView,
    keys: Seq<Seq<char>>,
    tagged: bool,
    expected: Seq<char>,
)
    ensures
        strict_entries(value, keys, tagged, expected) is Ok <==> (value matches JsonView::Object(
            entries,
        ) && forall|i: int|
            0 <= i < entries.len() ==> allowed(keys, tagged, (#[trigger] entries[i]).0)
                && !repeated(entries, i)),
        strict_entries(value, keys, tagged, expected) matches Ok(taken) ==> (value
            matches JsonView::Object(entries) && taken == entries),
{
    if let JsonView::Object(entries) = value {
        let p = refused_at(entries, keys, tagged);
        lemma_least(p, entries.len() as int);
        if least(p, entries.len() as int) is None {
            assert forall|i: int| 0 <= i < entries.len() implies allowed(
                keys,
                tagged,
                (#[trigger] entries[i]).0,
            ) && !repeated(entries, i) by {
                assert(!p(i));
            }
        } else {
            let i = least(p, entries.len() as int)->Some_0;
            assert(p(i));
        }
    }
}

/// A value is accepted as the node `N` exactly when it is an object of which
/// each key is allowed and none occurs twice, and whose entries give the
/// members of `N`.
pub proof fn lemma_node_accepted<N: Node>(value: JsonView, tagged: bool)
    ensures
        node::<N>(value, tagged) is Ok <==> (value matches JsonView::Object(entries)
            && N::members(entries) is Ok && forall|i: int|
            0 <= i < entries.len() ==> allowed(N::keys(), tagged, (#[trigger] entries[i]).0)
                && !repeated(entries, i)),
        node::<N>(value, tagged) is Ok ==> (value matches JsonView::Object(entries) && node::<N>(
            value,
            tagged,
        ) == N::members(entries)),
{
    lemma_strict_entries(value, N::keys(), tagged, N::keys_in_words());
}

/// An object with a key that the node `N` does not allow is rejected,
/// wherever among the entries the key stands and whatever else the object
/// holds.
pub proof fn lemma_unknown_key_rejected<N: Node>(value: JsonView, tagged: bool, i: int)
    requires
        value matches JsonView::Object(entries) && 0 <= i < entries.len() && !allowed(
            N::keys(),
            tagged,
            entries[i].0,
        ),
    ensures
        node::<N>(value, tagged) is Err,
{
    lemma_strict_entries(value, N::keys(), tagged, N::keys_in_words());
}

/// A value that holds a stray key, at the node or at any depth below it, is
/// rejected as the node `N`.
pub proof fn lemma_node_stray_key_rejected<N: Node>(value: JsonView, tagged: bool)
    ensures
        node_has_stray_key::<N>(value, tagged) ==> node::<N>(value, tagged) is Err,
{
    if node_has_stray_key::<N>(value, tagged) {
        lemma_node_accepted::<N>(value, tagged);
        let entries = value->Object_0;
        if N::has_stray_member(entries) {
            N::lemma_stray_member_rejected(entries);
            if some_repeated(entries) {
                let i = choose|i: int| 0 <= i < entries.len() && #[trigger] repeated(entries, i);
                assert(repeated(entries, i));
            }
        } else {
            let i = choose|i: int|
                0 <= i < entries.len() && !allowed(N::keys(), tagged, (#[trigger] entries[i]).0);
            lemma_unknown_key_rejected::<N>(value, tagged, i);
        }
    }
}

/// The path of a fault of the node `N` leads from `value` to a value inside
/// it.
pub proof fn lemma_node_fault_placed<N: Node>(value: JsonView, tagged: bool)
    ensures
        node::<N>(value, tagged) matches Err(fault) ==> leads(value, fault.path),
{
    if let JsonView::Object(entries) = value {
        N::lemma_member_fault_placed(entries);
        lemma_strict_entries(value, N::keys(), tagged, N::keys_in_words());
    }
}

/// An object with a key that occurs twice is rejected by every node.
pub proof fn lemma_repeated_key_rejected<N: Node>(value: JsonView, tagged: bool, i: int, j: int)
    requires
        value matches JsonView::Object(entries) && 0 <= i < j < entries.len() && entries[i].0
            == entries[j].0,
    ensures
        node::<N>(value, tagged) is Err,
{
    lemma_strict_entries(value, N::keys(), tagged, N::keys_in_words());
    if let JsonView::Object(entries) = value {
        assert(repeated(entries, j));
    }
}

/// A value that is no object is rejected by every node.
pub proof fn lemma_not_an_object_rejected<N: Node>(value: JsonView, tagged: bool)
    requires
        !(value is Object),
    ensures
        node::<N>(value, tagged) == rejected::<N::V>(
            DecodeErrorView::here(AN_OBJECT@, CauseView::WrongShape(value.shape())),
        ),
{
}

} // verus!
