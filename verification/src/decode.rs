//! What it is to decode a value: a function from JSON values to decoded
//! values or faults, and an executable function that computes it.

use vstd::prelude::*;
use crate::fault::{leads, DecodeError, DecodeErrorView};
use crate::json::{Json, JsonView};

verus! {

/// A type whose values are decoded from JSON values.
pub trait Decode: DeepView + Sized {
    /// What decoding `value` gives: the decoded value, or the fault that
    /// rejects `value`.
    spec fn decoding(value: JsonView) -> Result<Self::V, DecodeErrorView>;

    /// Whether `value`, read as a value of this type, holds a node with a key
    /// that the node does not allow: at the value itself or at any depth
    /// below it.
    spec fn has_stray_key(value: JsonView) -> bool;

    /// Decodes `value`. Nothing is kept of a value that is rejected.
    fn decode(value: &Json) -> (res: Result<Self, DecodeError>)
        ensures
            outcome(res) == Self::decoding(value.deep_view()),
    ;

    /// The path of a fault leads from `value` to a value inside it: a fault
    /// lies at a place of the document.
    proof fn lemma_fault_placed(value: JsonView)
        ensures
            Self::decoding(value) matches Err(fault) ==> leads(value, fault.path),
    ;

    /// Decoding is strict at every level: a value that holds, at any depth, a
    /// node with a key that the node does not allow is rejected.
    proof fn lemma_stray_key_rejected(value: JsonView)
        ensures
            Self::has_stray_key(value) ==> Self::decoding(value) is Err,
    ;
}

/// The result of decoding that gives `value`.
pub open spec fn accepted<V>(value: V) -> Result<V, DecodeErrorView> {
    Ok(value)
}

/// The result of decoding that fails with `fault`.
pub open spec fn rejected<V>(fault: DecodeErrorView) -> Result<V, DecodeErrorView> {
    Err(fault)
}

/// The mathematical value of a decoding result.
pub open spec fn outcome<T: DeepView>(res: Result<T, DecodeError>) -> Result<
    T::V,
    DecodeErrorView,
> {
    match res {
        Ok(value) => Ok(value.deep_view()),
        Err(fault) => Err(fault.deep_view()),
    }
}

} // verus!
