//! The members of a node: a key of the node with the value that is decoded
//! from the entry of that name.

use vstd::prelude::*;
use crate::collect::lemma_list;
use crate::decode::{accepted, outcome, Decode};
use crate::fault::{
    leads, lemma_leads_through_entry, Cause, CauseView, DecodeError, DecodeErrorView, Step,
    StepView,
};
use crate::json::{Entries, Json, JsonView};
use crate::least::lemma_least;
use crate::node::{find, member, named_at, position, repeated, some_repeated};

verus! {

/// What is expected where a key must be present.
pub const A_MEMBER: &'static str = "a member with this key";

/// The fault `fault` of the value under the key `name`, seen from the node.
pub open spec fn under_key(fault: DecodeErrorView, name: Seq<char>) -> DecodeErrorView {
    fault.under(StepView::Key(name))
}

/// A member that may be absent: without an entry named `name`, or with
/// `null` as its value, there is none; any other value is decoded.
pub open spec fn optional_member<T: Decode>(
    entries: Entries,
    name: Seq<char>,
) -> Result<Option<T::V>, DecodeErrorView> {
    match member(entries, name) {
        None => Ok(None),
        Some(JsonView::Null) => Ok(None),
        Some(value) => match T::decoding(value) {
            Ok(decoded) => Ok(Some(decoded)),
            Err(fault) => Err(under_key(fault, name)),
        },
    }
}

/// A member that must be present: the value of the entry named `name` is
/// decoded, and the lack of such an entry is a fault.
pub open spec fn required_member<T: Decode>(
    entries: Entries,
    name: Seq<char>,
) -> Result<T::V, DecodeErrorView> {
    match member(entries, name) {
        None => Err(DecodeErrorView::here(A_MEMBER@, CauseView::MissingKey(name))),
        Some(value) => match T::decoding(value) {
            Ok(decoded) => Ok(decoded),
            Err(fault) => Err(under_key(fault, name)),
        },
    }
}

/// A member that stands for `fallback` when it is absent.
pub open spec fn member_or<T: Decode>(
    entries: Entries,
    name: Seq<char>,
    fallback: T::V,
) -> Result<T::V, DecodeErrorView> {
    match member(entries, name) {
        None => Ok(fallback),
        Some(value) => match T::decoding(value) {
            Ok(decoded) => Ok(decoded),
            Err(fault) => Err(under_key(fault, name)),
        },
    }
}

/// Whether the value of an entry named `name` holds a stray key. The value
/// `null`, which stands for no value where the member may be absent, holds
/// none.
pub open spec fn stray_in_member<T: Decode>(entries: Entries, name: Seq<char>) -> bool {
    exists|i: int|
        0 <= i < entries.len() && (#[trigger] entries[i]).0 == name && !(entries[i].1 is Null)
            && T::has_stray_key(entries[i].1)
}

/// Whether the array under the key `key` holds the string `name`.
pub open spec fn lists(entries: Entries, key: Seq<char>, name: Seq<char>) -> bool {
    member(entries, key) matches Some(JsonView::Array(items)) && exists|i: int|
        0 <= i < items.len() && #[trigger] items[i] == JsonView::Str(name)
}

/// Puts a fault of the value under the key `name` at its place in the node.
pub fn place_under(fault: DecodeError, name: &'static str) -> (res: DecodeError)
    ensures
        res.deep_view() == under_key(fault.deep_view(), name@),
{
    fault.under(Step::Key(String::from_str(name)))
}

/// Decodes a member that may be absent.
pub fn decode_optional<T: Decode>(
    entries: &Vec<(String, Json)>,
    name: &'static str,
) -> (res: Result<Option<T>, DecodeError>)
    ensures
        outcome(res) == optional_member::<T>(entries.deep_view(), name@),
{
    match find(entries, name) {
        None => Ok(None),
        Some(i) => match &entries[i].1 {
            Json::Null => Ok(None),
            value => match T::decode(value) {
                Ok(decoded) => Ok(Some(decoded)),
                Err(fault) => Err(place_under(fault, name)),
            },
        },
    }
}

/// Decodes a member that must be present.
pub fn decode_required<T: Decode>(
    entries: &Vec<(String, Json)>,
    name: &'static str,
) -> (res: Result<T, DecodeError>)
    ensures
        outcome(res) == required_member::<T>(entries.deep_view(), name@),
{
    match find(entries, name) {
        None => Err(DecodeError::here(A_MEMBER, Cause::MissingKey(name))),
        Some(i) => match T::decode(&entries[i].1) {
            Ok(decoded) => Ok(decoded),
            Err(fault) => Err(place_under(fault, name)),
        },
    }
}

/// Decodes a member that stands for `fallback` when it is absent.
pub fn decode_or<T: Decode>(
    entries: &Vec<(String, Json)>,
    name: &'static str,
    fallback: T,
) -> (res: Result<T, DecodeError>)
    ensures
        outcome(res) == member_or::<T>(entries.deep_view(), name@, fallback.deep_view()),
{
    match find(entries, name) {
        None => Ok(fallback),
        Some(i) => match T::decode(&entries[i].1) {
            Ok(decoded) => Ok(decoded),
            Err(fault) => Err(place_under(fault, name)),
        },
    }
}

/// A member whose value holds a stray key is rejected, whichever of the three
/// kinds of member it is, unless the entry with that value is the second of
/// its name.
pub proof fn lemma_stray_in_member<T: Decode>(entries: Entries, name: Seq<char>)
    ensures
        stray_in_member::<T>(entries, name) ==> some_repeated(entries) || {
            &&& optional_member::<T>(entries, name) is Err
            &&& required_member::<T>(entries, name) is Err
            &&& forall|fallback: T::V| #[trigger] member_or::<T>(entries, name, fallback) is Err
        },
{
    if stray_in_member::<T>(entries, name) {
        let i = choose|i: int|
            0 <= i < entries.len() && (#[trigger] entries[i]).0 == name && !(entries[i].1 is Null)
                && T::has_stray_key(entries[i].1);
        let p = named_at(entries, name);
        assert(p(i));
        lemma_least(p, entries.len() as int);
        let first = position(entries, name)->Some_0;
        if first == i {
            T::lemma_stray_key_rejected(entries[i].1);
        } else {
            assert(p(first));
            assert(entries[first].0 == entries[i].0);
            assert(repeated(entries, i));
        }
    }
}

/// The path of the fault of a member leads from the object of the entries to
/// a value inside it, whichever of the three kinds of member it is.
pub proof fn lemma_member_fault_placed<T: Decode>(entries: Entries, name: Seq<char>)
    ensures
        optional_member::<T>(entries, name) matches Err(fault) ==> leads(
            JsonView::Object(entries),
            fault.path,
        ),
        required_member::<T>(entries, name) matches Err(fault) ==> leads(
            JsonView::Object(entries),
            fault.path,
        ),
        forall|fallback: T::V| #[trigger]
            member_or::<T>(entries, name, fallback) matches Err(fault) ==> leads(
                JsonView::Object(entries),
                fault.path,
            ),
{
    if let Some(i) = position(entries, name) {
        lemma_least(named_at(entries, name), entries.len() as int);
        T::lemma_fault_placed(entries[i].1);
        if let Err(fault) = T::decoding(entries[i].1) {
            lemma_leads_through_entry(JsonView::Object(entries), i, fault);
        }
    }
}

/// A member that may be absent is rejected exactly when its entry holds a
/// value other than `null` that is rejected. Without an entry there is no
/// member: nothing stands in for it.
pub proof fn lemma_optional_member<T: Decode>(entries: Entries, name: Seq<char>)
    ensures
        optional_member::<T>(entries, name) is Err <==> (member(entries, name) matches Some(
            value,
        ) && !(value is Null) && T::decoding(value) is Err),
        member(entries, name) is None ==> optional_member::<T>(entries, name) == accepted(
            None::<T::V>,
        ),
{
}

/// A list of strings that may be absent holds a name exactly when the array
/// under its key holds that name as a string. Without an entry, and with
/// `null` under the key, there is no list, and it holds no name.
pub proof fn lemma_optional_list(entries: Entries, key: Seq<char>, name: Seq<char>)
    requires
        optional_member::<Vec<String>>(entries, key) is Ok,
    ensures
        (optional_member::<Vec<String>>(entries, key)->Ok_0 matches Some(names) && names.contains(
            name,
        )) <==> lists(entries, key, name),
{
    if let Some(value) = member(entries, key) {
        if !(value is Null) {
            lemma_list::<String>(value);
            let names = Vec::<String>::decoding(value)->Ok_0;
            let items = value->Array_0;
            if names.contains(name) {
                let i = choose|i: int| 0 <= i < names.len() && names[i] == name;
                assert(String::decoding(items[i]) == accepted(names[i]));
                assert(items[i] == JsonView::Str(name));
            }
            if lists(entries, key, name) {
                let i = choose|i: int|
                    0 <= i < items.len() && #[trigger] items[i] == JsonView::Str(name);
                assert(String::decoding(items[i]) == accepted(names[i]));
                assert(names[i] == name);
            }
        }
    }
}

/// A member that must be present is rejected exactly when it has no entry,
/// or its entry holds a value that is rejected.
pub proof fn lemma_required_member<T: Decode>(entries: Entries, name: Seq<char>)
    ensures
        required_member::<T>(entries, name) is Err <==> (member(entries, name) is None || (member(
            entries,
            name,
        ) matches Some(value) && T::decoding(value) is Err)),
{
}

/// A member with a fallback is rejected exactly when its entry holds a value
/// that is rejected, and is the fallback when it has no entry.
pub proof fn lemma_member_or<T: Decode>(
    entries: Entries,
    name: Seq<char>,
    fallback: T::V,
)
    ensures
        member_or::<T>(entries, name, fallback) is Err <==> (member(entries, name) matches Some(
            value,
        ) && T::decoding(value) is Err),
        member(entries, name) is None ==> member_or::<T>(entries, name, fallback) == accepted(
            fallback,
        ),
{
}

} // verus!
