use vstd::prelude::*;

use super::formatter::write_text;

verus! {

/// The error of a destination of fixed capacity that has no room left for
/// a write.
#[derive(Debug, Clone, Copy, PartialEq, Eq, PartialOrd, Ord, Structural)]
pub struct InsufficientSpace;

impl InsufficientSpace {
    /// The message that describes the error.
    pub fn message(&self) -> (text: &'static str)
        ensures
            text@ == "The provided buffer has no space left for encoding"@,
    {
        "The provided buffer has no space left for encoding"
    }
}

impl core::fmt::Display for InsufficientSpace {
    fn fmt(&self, f: &mut core::fmt::Formatter<'_>) -> core::fmt::Result {
        write_text(f, self.message())
    }
}

impl core::error::Error for InsufficientSpace {}

} // verus!
