//! Checks that turn a broken invariant of a format into an error that names
//! the invariant and the byte offset of the field that broke it.  A check
//! comes in three shapes: a condition, an equality, and a closed range of
//! numbers; the last two say what they found.  An equality is one of whole
//! numbers, or one of a number or a triple of numbers with zero.

use crate::error::{Detail, Error, Result};
use crate::string::{c_text, str_from_c_padded};
use crate::types::{Vec3, F32};
use vstd::prelude::*;
use vstd::utf8::{decode_utf8, valid_utf8};

verus! {

/// The error of a broken invariant at a byte offset.
pub open spec fn broken(label: &'static str, offset: int) -> Error {
    Error::Assertion { label, offset: offset as u32, detail: Detail::Condition }
}

/// The error of two whole numbers that are not equal.
pub open spec fn differs(label: &'static str, actual: u32, expected: u32, offset: int) -> Error {
    Error::Assertion { label, offset: offset as u32, detail: Detail::Equal { actual, expected } }
}

/// The error of a number that is not zero.
pub open spec fn not_zero(label: &'static str, number: F32, offset: int) -> Error {
    Error::Assertion { label, offset: offset as u32, detail: Detail::Zero { number } }
}

/// The error of a triple of numbers that are not all zero.
pub open spec fn not_empty(label: &'static str, triple: Vec3, offset: int) -> Error {
    Error::Assertion { label, offset: offset as u32, detail: Detail::Empty { triple } }
}

/// What a check of a number that has to be zero gives.
pub open spec fn check_zero(label: &'static str, number: F32, offset: int) -> Result<()> {
    if number.spec_is_zero() {
        Ok(())
    } else {
        Err(not_zero(label, number, offset))
    }
}

/// What a check of a triple of numbers that have to be zero gives.
pub open spec fn check_empty(label: &'static str, triple: Vec3, offset: int) -> Result<()> {
    if triple.spec_is_empty() {
        Ok(())
    } else {
        Err(not_empty(label, triple, offset))
    }
}

/// The error of a number outside a closed range.
pub open spec fn outside(label: &'static str, low: F32, value: F32, high: F32, offset: int)
    -> Error {
    Error::Assertion { label, offset: offset as u32, detail: Detail::Range { low, value, high } }
}

/// What a check of equality gives.
pub open spec fn check_equal(label: &'static str, actual: u32, expected: u32, offset: int)
    -> Result<()> {
    if actual == expected {
        Ok(())
    } else {
        Err(differs(label, actual, expected, offset))
    }
}

/// What a check of a closed range gives.
pub open spec fn check_between(label: &'static str, low: F32, value: F32, high: F32, offset: int)
    -> Result<()> {
    if value.spec_is_between(low, high) {
        Ok(())
    } else {
        Err(outside(label, low, value, high, offset))
    }
}

/// What a check of `condition` gives.
pub open spec fn check(label: &'static str, condition: bool, offset: int) -> Result<()> {
    if condition {
        Ok(())
    } else {
        Err(broken(label, offset))
    }
}

/// What a check of a strict boolean gives: 0 is false, 1 is true, and any
/// other value breaks the invariant.
pub open spec fn check_bool(label: &'static str, value: u32, offset: int) -> Result<bool> {
    if value == 0 {
        Ok(false)
    } else if value == 1 {
        Ok(true)
    } else {
        Err(broken(label, offset))
    }
}

/// Every byte is zero.
pub open spec fn all_zero(bytes: Seq<u8>) -> bool {
    forall|i: int| 0 <= i < bytes.len() ==> bytes[i] == 0
}

/// What reading the text of a slot gives.
pub open spec fn check_utf8(label: &'static str, offset: int, slot: Seq<u8>) -> core::result::Result<
    Seq<char>,
    Error,
> {
    if valid_utf8(c_text(slot)) {
        Ok(decode_utf8(c_text(slot)))
    } else {
        Err(Error::Encoding { label, offset: offset as u32 })
    }
}

/// The boolean shape: `condition` has to hold.
pub fn assert_that(label: &'static str, condition: bool, offset: u32) -> (r: Result<()>)
    ensures
        r == check(label, condition, offset as int),
{
    if condition {
        Ok(())
    } else {
        Err(Error::Assertion { label, offset, detail: Detail::Condition })
    }
}

/// The equality shape: `actual` has to be `expected`.  The error says
/// both.
pub fn assert_equal(label: &'static str, actual: u32, expected: u32, offset: u32) -> (r: Result<()>)
    ensures
        r == check_equal(label, actual, expected, offset as int),
{
    if actual == expected {
        Ok(())
    } else {
        Err(Error::Assertion { label, offset, detail: Detail::Equal { actual, expected } })
    }
}

/// The equality shape for a number that has to be zero.  The error says
/// the number.
pub fn assert_zero(label: &'static str, number: F32, offset: u32) -> (r: Result<()>)
    ensures
        r == check_zero(label, number, offset as int),
{
    if number.is_zero() {
        Ok(())
    } else {
        Err(Error::Assertion { label, offset, detail: Detail::Zero { number } })
    }
}

/// The equality shape for a triple of numbers that have to be zero.  The
/// error says the triple.
pub fn assert_empty(label: &'static str, triple: Vec3, offset: u32) -> (r: Result<()>)
    ensures
        r == check_empty(label, triple, offset as int),
{
    if triple.is_empty() {
        Ok(())
    } else {
        Err(Error::Assertion { label, offset, detail: Detail::Empty { triple } })
    }
}

/// The range shape: `low <= value <= high` as numbers.  The error says
/// the number and the two ends of the range.
pub fn assert_between(label: &'static str, low: F32, value: F32, high: F32, offset: u32) -> (r:
    Result<()>)
    ensures
        r == check_between(label, low, value, high, offset as int),
{
    if value.is_between(low, high) {
        Ok(())
    } else {
        Err(
            Error::Assertion {
                label,
                offset,
                detail: Detail::Range { low, value, high },
            },
        )
    }
}

/// A strict boolean: `value` has to be 0 or 1.
pub fn assert_bool(label: &'static str, value: u32, offset: u32) -> (r: Result<bool>)
    ensures
        r == check_bool(label, value, offset as int),
{
    if value == 0 {
        Ok(false)
    } else if value == 1 {
        Ok(true)
    } else {
        Err(Error::Assertion { label, offset, detail: Detail::Condition })
    }
}

/// Every byte of `bytes` has to be zero.
pub fn assert_all_zero(label: &'static str, offset: u32, bytes: &[u8]) -> (r: Result<()>)
    ensures
        r == check(label, all_zero(bytes@), offset as int),
{
    let mut i: usize = 0;
    while i < bytes.len()
        invariant
            i <= bytes@.len(),
            forall|j: int| 0 <= j < i ==> bytes@[j] == 0,
        decreases bytes@.len() - i,
    {
        if bytes[i] != 0 {
            return Err(Error::Assertion { label, offset, detail: Detail::Condition });
        }
        i = i + 1;
    }
    Ok(())
}

/// The text of a slot, which has to be valid UTF-8.
pub fn assert_utf8(label: &'static str, offset: u32, slot: &[u8]) -> (r: Result<String>)
    ensures
        crate::error::view_ok(r) == check_utf8(label, offset as int, slot@),
{
    match str_from_c_padded(slot) {
        Some(text) => Ok(text),
        None => Err(Error::Encoding { label, offset }),
    }
}

} // verus!
