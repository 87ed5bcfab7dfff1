use vstd::prelude::*;
use vstd::std_specs::convert::FromSpecImpl;
use vstd::string::StringSliceAdditionalSpecFns;

use crate::script::took;
use crate::BaseEncoder;
use crate::ByteEncoder;

verus! {

/// A destination that counts the bytes handed to it and keeps none.
///
/// Running a value against it gives the length of the value's encoded form
/// by the same writes that a real destination would get. The count stops at
/// `usize::MAX`.
#[derive(Debug, Clone, Copy, PartialEq, Eq, PartialOrd, Ord)]
pub struct SizeEncoder {
    size: usize,
}

/// The sum of `size` and `more`, held at `usize::MAX`.
pub open spec fn counted(size: usize, more: nat) -> usize {
    if size + more > usize::MAX {
        usize::MAX
    } else {
        (size + more) as usize
    }
}

impl SizeEncoder {
    /// The number of bytes counted so far.
    pub closed spec fn counter(&self) -> usize {
        self.size
    }

    /// A counter that has counted nothing.
    #[inline]
    #[must_use]
    pub fn new() -> (encoder: Self)
        ensures
            encoder.counter() == 0,
    {
        SizeEncoder { size: 0 }
    }

    /// The number of bytes counted so far.
    #[inline]
    #[must_use]
    #[verifier::when_used_as_spec(counter)]
    pub fn size(&self) -> (size: usize)
        ensures
            size == self.counter(),
    {
        self.size
    }
}

impl core::fmt::Write for SizeEncoder {
    /// Counts the bytes of the UTF-8 form of `s`.
    fn write_str(&mut self, s: &str) -> (res: core::fmt::Result)
        ensures
            res is Ok,
            final(self).counter() == counted(old(self).counter(), s.spec_bytes().len()),
    {
        self.size = self.size.saturating_add(s.as_bytes().len());
        Ok(())
    }
}

impl Default for SizeEncoder {
    fn default() -> (encoder: Self)
        ensures
            encoder.counter() == 0,
    {
        SizeEncoder::new()
    }
}

impl From<SizeEncoder> for usize {
    fn from(encoder: SizeEncoder) -> (size: usize) {
        encoder.size
    }
}

impl FromSpecImpl<SizeEncoder> for usize {
    open spec fn obeys_from_spec() -> bool {
        true
    }

    open spec fn from_spec(encoder: SizeEncoder) -> usize {
        encoder.counter()
    }
}

impl BaseEncoder for SizeEncoder {
    type Error = core::convert::Infallible;

    /// The counter takes every write by adding the number of its bytes.
    open spec fn accepts(&self, bytes: Seq<u8>, post: &Self) -> bool {
        post.counter() == counted(self.counter(), bytes.len())
    }

    /// The counter refuses nothing.
    open spec fn rejects(&self, bytes: Seq<u8>, post: &Self, err: Self::Error) -> bool {
        false
    }
}

impl ByteEncoder for SizeEncoder {
    #[inline]
    fn put_slice(&mut self, slice: &[u8]) -> (res: Result<(), Self::Error>)
        ensures
            res is Ok,
    {
        self.size = self.size.saturating_add(slice.len());
        Ok(())
    }

    #[inline]
    fn put_byte(&mut self, byte: u8) -> (res: Result<(), Self::Error>)
        ensures
            res is Ok,
    {
        self.size = self.size.saturating_add(1);
        Ok(())
    }
}

/// A counter that took a run of chunks has added the number of their
/// bytes.
pub proof fn lemma_counter_took(pre: &SizeEncoder, chunks: Seq<Seq<u8>>, post: &SizeEncoder)
    requires
        took(pre, chunks, post),
    ensures
        post.counter() == counted(pre.counter(), chunks.flatten().len()),
    decreases chunks.len(),
{
    if chunks.len() == 0 {
        assert(chunks.flatten() =~= Seq::<u8>::empty());
    } else {
        let mid = choose|mid: SizeEncoder|
            took(pre, chunks.drop_last(), &mid) && #[trigger] mid.accepts(chunks.last(), post);
        lemma_counter_took(pre, chunks.drop_last(), &mid);
        chunks.lemma_flatten_and_flatten_alt_are_equivalent();
        chunks.drop_last().lemma_flatten_and_flatten_alt_are_equivalent();
        assert(chunks.flatten_alt() == chunks.drop_last().flatten_alt() + chunks.last());
    }
}

} // verus!
