//! The error kinds of the codecs.

use crate::types::{Vec3, F32};
use vstd::prelude::*;

verus! {

/// What a broken invariant has to show besides its name.
#[derive(Clone, Copy, Debug, PartialEq, Eq, Structural)]
pub enum Detail {
    /// A condition that does not hold, with no numbers to show.
    Condition,
    /// Two whole numbers that have to be equal and are not.
    Equal { actual: u32, expected: u32 },
    /// A number that has to be zero and is not.
    Zero { number: F32 },
    /// A triple of numbers that have to be zero and are not.
    Empty { triple: Vec3 },
    /// A number that lies outside a closed range.
    Range { low: F32, value: F32, high: F32 },
}

/// Why a decode or an encode stopped.  Every error is terminal for the call
/// tree that raised it.
#[derive(Clone, Copy, Debug, PartialEq, Eq)]
pub enum Error {
    /// A named invariant of the format does not hold.  `offset` is the byte
    /// offset of the start of the field that broke it; an invariant broken
    /// while encoding has no field in a stream and carries offset 0.  A
    /// check of equality or of a range says in `detail` what it found and
    /// what it asked for.
    Assertion { label: &'static str, offset: u32, detail: Detail },
    /// A variant tag or a flag word has no known meaning.
    UnknownDiscriminant { label: &'static str, value: u32, offset: u32 },
    /// The size declared for a record is not the fixed size of its kind.
    SizeMismatch { label: &'static str, expected: u32, actual: u32, offset: u32 },
    /// A fixed-length text field is not valid UTF-8, or a text does not fit
    /// its slot.
    Encoding { label: &'static str, offset: u32 },
    /// The byte source ended early.
    Transport,
}

/// The result of a fallible operation of this library.
pub type Result<T> = core::result::Result<T, Error>;

/// Lifts the view through a result: `Ok(v)` becomes `Ok(v@)`, an error stays.
pub open spec fn view_ok<T: View>(r: Result<T>) -> core::result::Result<T::V, Error> {
    match r {
        Ok(v) => Ok(v@),
        Err(e) => Err(e),
    }
}

} // verus!
