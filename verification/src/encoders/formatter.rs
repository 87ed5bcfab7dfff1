use vstd::prelude::*;

use crate::BaseEncoder;
use crate::StrEncoder;

verus! {

/// `Formatter` of `core::fmt`. Nothing is known of what is inside it.
#[verifier::external_type_specification]
#[verifier::external_body]
pub struct ExFormatter<'a>(core::fmt::Formatter<'a>);

/// `Error` of `core::fmt`: the one error of formatting, which says nothing
/// but that it happened.
#[verifier::external_type_specification]
pub struct ExFmtError(core::fmt::Error);

/// `Formatter::write_str` of `core::fmt`. Where the text goes, and whether it
/// is taken, is up to the writer behind the formatter.
#[verifier::external_body]
pub(crate) fn write_text(formatter: &mut core::fmt::Formatter<'_>, string: &str) -> Result<
    (),
    core::fmt::Error,
> {
    formatter.write_str(string)
}

impl<'a> BaseEncoder for core::fmt::Formatter<'a> {
    type Error = core::fmt::Error;

    /// Nothing is known of a formatter that took a write.
    open spec fn accepts(&self, bytes: Seq<u8>, post: &Self) -> bool {
        true
    }

    /// Nothing is known of a formatter that refused a write.
    open spec fn rejects(&self, bytes: Seq<u8>, post: &Self, err: Self::Error) -> bool {
        true
    }
}

impl<'a> StrEncoder for core::fmt::Formatter<'a> {
    fn put_str(&mut self, string: &str) -> (res: Result<(), Self::Error>) {
        write_text(self, string)
    }
}

} // verus!
