//! A bounded text length.

use vstd::prelude::*;
use crate::domain::errors::{DomainError, DomainResult};

verus! {

/// The smallest length that is accepted.
pub const MIN_TEXT_LENGTH: u32 = 1;

/// The largest length that is accepted.
pub const MAX_TEXT_LENGTH: u32 = 1000;

/// A text length between 1 and 1000, both included.
#[derive(Debug, Clone, Copy, PartialEq, Eq)]
pub struct TextLength {
    value: u32,
}

/// Calls `validator::ValidateRange::validate_range` on a `u32` with both
/// inclusive bounds set and no exclusive bound. The crate answers `false`
/// when the value is above `max` or below `min`, and `true` otherwise.
#[verifier::external_body]
fn within_bounds(value: u32, min: u32, max: u32) -> (inside: bool)
    ensures
        inside == (min <= value <= max),
{
    validator::ValidateRange::validate_range(&value, Some(min), Some(max), None, None)
}

impl View for TextLength {
    type V = u32;

    closed spec fn view(&self) -> u32 {
        self.value
    }
}

impl TextLength {
    #[verifier::type_invariant]
    pub closed spec fn in_bounds(self) -> bool {
        MIN_TEXT_LENGTH <= self.value <= MAX_TEXT_LENGTH
    }

    /// Accepts a value between 1 and 1000 and rejects every other as an
    /// invalid text length, with the value and both bounds.
    pub fn new(value: u32) -> (length: DomainResult<Self>)
        ensures
            1 <= value <= 1000 ==> (length matches Ok(accepted) && accepted@ == value),
            !(1 <= value <= 1000) ==> length == Err::<Self, DomainError>(
                DomainError::InvalidTextLength { value, min: 1, max: 1000 },
            ),
    {
        if within_bounds(value, MIN_TEXT_LENGTH, MAX_TEXT_LENGTH) {
            Ok(TextLength { value })
        } else {
            Err(DomainError::invalid_text_length(value, MIN_TEXT_LENGTH, MAX_TEXT_LENGTH))
        }
    }

    /// The length itself.
    pub fn value(&self) -> (value: u32)
        ensures
            value == self@,
            1 <= value <= 1000,
    {
        proof {
            use_type_invariant(self);
        }
        self.value
    }
}

} // verus!
