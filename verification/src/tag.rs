//! The tag of a node: the string under the key `type`, by which a position
//! that allows several nodes selects one.

use vstd::prelude::*;
use crate::decode::outcome;
use crate::fault::{
    leads, lemma_leads_through_entry, Cause, CauseView, DecodeError, DecodeErrorView, Step,
    StepView,
};
use crate::json::{Entries, Json, JsonView};
use crate::least::lemma_least;
use crate::node::{find, lemma_entry, named_at, position, AN_OBJECT, EACH_KEY_ONCE, TAG};
use crate::text::same_text;

verus! {

/// Whether an entry after the one at `i` is named `name`.
pub open spec fn named_later(entries: Entries, name: Seq<char>, i: int) -> bool {
    exists|m: int| i < m < entries.len() && (#[trigger] entries[m]).0 == name
}

/// The tag of `value`: `value` is an object with one entry named `type`, and
/// the value of that entry is a string, which is the tag. `expected`
/// describes the vocabulary of the position.
pub open spec fn tag_of(value: JsonView, expected: Seq<char>) -> Result<
    Seq<char>,
    DecodeErrorView,
> {
    match value {
        JsonView::Object(entries) => match position(entries, TAG@) {
            None => Err(DecodeErrorView::here(expected, CauseView::MissingKey(TAG@))),
            Some(i) => if named_later(entries, TAG@, i) {
                Err(DecodeErrorView::here(EACH_KEY_ONCE@, CauseView::DuplicateKey(TAG@)))
            } else {
                match entries[i].1 {
                    JsonView::Str(tag) => Ok(tag),
                    other => Err(
                        DecodeErrorView::here(
                            expected,
                            CauseView::WrongShape(other.shape()),
                        ).under(StepView::Key(TAG@)),
                    ),
                }
            },
        },
        _ => Err(DecodeErrorView::here(AN_OBJECT@, CauseView::WrongShape(value.shape()))),
    }
}

/// The fault of a tag that the vocabulary described by `expected` lacks.
pub open spec fn unknown_tag(tag: Seq<char>, expected: Seq<char>) -> DecodeErrorView {
    DecodeErrorView::here(expected, CauseView::UnknownTag(tag)).under(StepView::Key(TAG@))
}

/// Whether an entry after the one at `i` is named `name`.
pub fn is_named_later(entries: &Vec<(String, Json)>, name: &str, i: usize) -> (res: bool)
    requires
        i < entries@.len(),
    ensures
        res == named_later(entries.deep_view(), name@, i as int),
{
    let n: usize = entries.len();
    let mut m: usize = i + 1;
    while m < n
        invariant
            n == entries@.len(),
            n == entries.deep_view().len(),
            i < m <= n,
            forall|k: int| i < k < m ==> (#[trigger] entries.deep_view()[k]).0 != name@,
        decreases n - m,
    {
        proof {
            lemma_entry(entries, m as int);
        }
        if same_text(entries[m].0.as_str(), name) {
            return true;
        }
        m = m + 1;
    }
    false
}

/// Reads the tag of `value`.
pub fn read_tag<'a>(value: &'a Json, expected: &'static str) -> (res: Result<&'a str, DecodeError>)
    ensures
        outcome(res) == tag_of(value.deep_view(), expected@),
{
    match value {
        Json::Object(entries) => {
            proof {
                value.lemma_parts();
            }
            match find(entries, TAG) {
                None => Err(DecodeError::here(expected, Cause::MissingKey(TAG))),
                Some(i) => {
                    proof {
                        lemma_entry(entries, i as int);
                    }
                    if is_named_later(entries, TAG, i) {
                        return Err(
                            DecodeError::here(
                                EACH_KEY_ONCE,
                                Cause::DuplicateKey(String::from_str(TAG)),
                            ),
                        );
                    }
                    match &entries[i].1 {
                        Json::Str(tag) => Ok(tag.as_str()),
                        other => Err(
                            DecodeError::here(expected, Cause::WrongShape(other.shape())).under(
                                Step::Key(String::from_str(TAG)),
                            ),
                        ),
                    }
                },
            }
        },
        _ => Err(DecodeError::here(AN_OBJECT, Cause::WrongShape(value.shape()))),
    }
}

/// The fault of a tag that the vocabulary described by `expected` lacks.
pub fn refuse_tag(tag: &str, expected: &'static str) -> (res: DecodeError)
    ensures
        res.deep_view() == unknown_tag(tag@, expected@),
{
    DecodeError::here(expected, Cause::UnknownTag(String::from_str(tag))).under(
        Step::Key(String::from_str(TAG)),
    )
}

/// The path of a fault of the tag leads from `value` to a value inside it,
/// and so does that of a tag outside the vocabulary.
pub proof fn lemma_tag_fault_placed(value: JsonView, expected: Seq<char>)
    ensures
        tag_of(value, expected) matches Err(fault) ==> leads(value, fault.path),
        tag_of(value, expected) matches Ok(tag) ==> leads(value, unknown_tag(tag, expected).path),
{
    if let JsonView::Object(entries) = value {
        if let Some(i) = position(entries, TAG@) {
            lemma_least(named_at(entries, TAG@), entries.len() as int);
            let step = seq![StepView::Key(TAG@)];
            let inside = DecodeErrorView::here(expected, CauseView::MissingKey(TAG@));
            lemma_leads_through_entry(value, i, inside);
            assert(inside.under(StepView::Key(TAG@)).path =~= step);
            if let Err(fault) = tag_of(value, expected) {
                assert(fault.path =~= Seq::empty() || fault.path =~= step);
            }
            if let Ok(tag) = tag_of(value, expected) {
                assert(unknown_tag(tag, expected).path =~= step);
            }
        }
    }
}

} // verus!
