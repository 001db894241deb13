//! Decoding of the values without parts: strings, booleans and integers.

use vstd::prelude::*;
use crate::decode::Decode;
use crate::fault::{Cause, CauseView, DecodeError, DecodeErrorView};
use crate::json::{Json, JsonView};

verus! {

/// What is expected where a string stands.
pub const A_STRING: &'static str = "a string";

/// What is expected where a boolean stands.
pub const A_BOOLEAN: &'static str = "true or false";

/// What is expected where a signed integer of 64 bits stands.
pub const AN_I64: &'static str = "an integer from -9223372036854775808 to 9223372036854775807";

/// What is expected where an unsigned integer of 64 bits stands.
pub const A_U64: &'static str = "an integer from 0 to 18446744073709551615";

/// What is expected where an unsigned integer of 32 bits stands.
pub const A_U32: &'static str = "an integer from 0 to 4294967295";

/// An integer from `low` to `high`: `value` is a number without fraction or
/// exponent in that range.
pub open spec fn integer_within(
    value: JsonView,
    low: int,
    high: int,
    expected: Seq<char>,
) -> Result<int, DecodeErrorView> {
    match value {
        JsonView::Int(n) => if low <= n <= high {
            Ok(n)
        } else {
            Err(DecodeErrorView::here(expected, CauseView::OutOfRange(n)))
        },
        _ => Err(DecodeErrorView::here(expected, CauseView::WrongShape(value.shape()))),
    }
}

impl Decode for String {
    /// A string is decoded from a JSON string, and holds its characters.
    open spec fn decoding(value: JsonView) -> Result<Seq<char>, DecodeErrorView> {
        match value {
            JsonView::Str(text) => Ok(text),
            _ => Err(DecodeErrorView::here(A_STRING@, CauseView::WrongShape(value.shape()))),
        }
    }

    open spec fn has_stray_key(value: JsonView) -> bool {
        false
    }

    proof fn lemma_stray_key_rejected(value: JsonView) {
    }

    proof fn lemma_fault_placed(value: JsonView) {
    }

    fn decode(value: &Json) -> (res: Result<String, DecodeError>) {
        match value {
            Json::Str(text) => Ok(text.clone()),
            _ => Err(DecodeError::here(A_STRING, Cause::WrongShape(value.shape()))),
        }
    }
}

impl Decode for bool {
    /// A boolean is decoded from `true` or `false`.
    open spec fn decoding(value: JsonView) -> Result<bool, DecodeErrorView> {
        match value {
            JsonView::Bool(b) => Ok(b),
            _ => Err(DecodeErrorView::here(A_BOOLEAN@, CauseView::WrongShape(value.shape()))),
        }
    }

    open spec fn has_stray_key(value: JsonView) -> bool {
        false
    }

    proof fn lemma_stray_key_rejected(value: JsonView) {
    }

    proof fn lemma_fault_placed(value: JsonView) {
    }

    fn decode(value: &Json) -> (res: Result<bool, DecodeError>) {
        match value {
            Json::Bool(b) => Ok(*b),
            _ => Err(DecodeError::here(A_BOOLEAN, Cause::WrongShape(value.shape()))),
        }
    }
}

impl Decode for i64 {
    /// A signed integer of 64 bits is decoded from an integer in its range.
    open spec fn decoding(value: JsonView) -> Result<i64, DecodeErrorView> {
        match integer_within(value, i64::MIN as int, i64::MAX as int, AN_I64@) {
            Ok(n) => Ok(n as i64),
            Err(fault) => Err(fault),
        }
    }

    open spec fn has_stray_key(value: JsonView) -> bool {
        false
    }

    proof fn lemma_stray_key_rejected(value: JsonView) {
    }

    proof fn lemma_fault_placed(value: JsonView) {
    }

    fn decode(value: &Json) -> (res: Result<i64, DecodeError>) {
        match value {
            Json::Int(n) => if i64::MIN as i128 <= *n && *n <= i64::MAX as i128 {
                Ok(*n as i64)
            } else {
                Err(DecodeError::here(AN_I64, Cause::OutOfRange(*n)))
            },
            _ => Err(DecodeError::here(AN_I64, Cause::WrongShape(value.shape()))),
        }
    }
}

impl Decode for u64 {
    /// An unsigned integer of 64 bits is decoded from an integer in its range.
    open spec fn decoding(value: JsonView) -> Result<u64, DecodeErrorView> {
        match integer_within(value, 0, u64::MAX as int, A_U64@) {
            Ok(n) => Ok(n as u64),
            Err(fault) => Err(fault),
        }
    }

    open spec fn has_stray_key(value: JsonView) -> bool {
        false
    }

    proof fn lemma_stray_key_rejected(value: JsonView) {
    }

    proof fn lemma_fault_placed(value: JsonView) {
    }

    fn decode(value: &Json) -> (res: Result<u64, DecodeError>) {
        match value {
            Json::Int(n) => if 0 <= *n && *n <= u64::MAX as i128 {
                Ok(*n as u64)
            } else {
                Err(DecodeError::here(A_U64, Cause::OutOfRange(*n)))
            },
            _ => Err(DecodeError::here(A_U64, Cause::WrongShape(value.shape()))),
        }
    }
}

impl Decode for u32 {
    /// An unsigned integer of 32 bits is decoded from an integer in its range.
    open spec fn decoding(value: JsonView) -> Result<u32, DecodeErrorView> {
        match integer_within(value, 0, u32::MAX as int, A_U32@) {
            Ok(n) => Ok(n as u32),
            Err(fault) => Err(fault),
        }
    }

    open spec fn has_stray_key(value: JsonView) -> bool {
        false
    }

    proof fn lemma_stray_key_rejected(value: JsonView) {
    }

    proof fn lemma_fault_placed(value: JsonView) {
    }

    fn decode(value: &Json) -> (res: Result<u32, DecodeError>) {
        match value {
            Json::Int(n) => if 0 <= *n && *n <= u32::MAX as i128 {
                Ok(*n as u32)
            } else {
                Err(DecodeError::here(A_U32, Cause::OutOfRange(*n)))
            },
            _ => Err(DecodeError::here(A_U32, Cause::WrongShape(value.shape()))),
        }
    }
}

} // verus!
