use vstd::prelude::*;
use vstd::string::StringExecFns;
use vstd::utf8::decode_utf8;
use vstd::utf8::encode_utf8_decode_utf8;
use vstd::utf8::encode_utf8_valid_utf8;
use vstd::utf8::valid_utf8;

use crate::script::took;
use crate::BaseEncoder;
use crate::ByteEncoder;
use crate::StrEncoder;

verus! {

impl BaseEncoder for Vec<u8> {
    type Error = core::convert::Infallible;

    /// A vector takes every write by appending the bytes.
    open spec fn accepts(&self, bytes: Seq<u8>, post: &Self) -> bool {
        post@ == self@ + bytes
    }

    /// A vector refuses nothing.
    open spec fn rejects(&self, bytes: Seq<u8>, post: &Self, err: Self::Error) -> bool {
        false
    }
}

impl ByteEncoder for Vec<u8> {
    #[inline]
    fn put_slice(&mut self, slice: &[u8]) -> (res: Result<(), Self::Error>)
        ensures
            res is Ok,
            final(self)@ == old(self)@ + slice@,
    {
        self.extend_from_slice(slice);
        assert(self@ =~= old(self)@ + slice@);
        Ok(())
    }

    #[inline]
    fn put_byte(&mut self, byte: u8) -> (res: Result<(), Self::Error>)
        ensures
            res is Ok,
            final(self)@ == old(self)@.push(byte),
    {
        self.push(byte);
        assert(self@ =~= old(self)@ + seq![byte]);
        Ok(())
    }
}

impl BaseEncoder for String {
    type Error = core::convert::Infallible;

    /// A string takes every write of UTF-8 by appending the text that the
    /// bytes stand for.
    open spec fn accepts(&self, bytes: Seq<u8>, post: &Self) -> bool {
        valid_utf8(bytes) && post@ == self@ + decode_utf8(bytes)
    }

    /// A string refuses nothing.
    open spec fn rejects(&self, bytes: Seq<u8>, post: &Self, err: Self::Error) -> bool {
        false
    }
}

impl StrEncoder for String {
    #[inline]
    fn put_str(&mut self, string: &str) -> (res: Result<(), Self::Error>)
        ensures
            res is Ok,
            final(self)@ == old(self)@ + string@,
    {
        self.append(string);
        proof {
            encode_utf8_valid_utf8(string@);
            encode_utf8_decode_utf8(string@);
        }
        Ok(())
    }
}

/// A vector that took a run of chunks holds what it held before, followed
/// by the bytes of the chunks.
pub proof fn lemma_vec_took(pre: &Vec<u8>, chunks: Seq<Seq<u8>>, post: &Vec<u8>)
    requires
        took(pre, chunks, post),
    ensures
        post@ == pre@ + chunks.flatten(),
    decreases chunks.len(),
{
    if chunks.len() == 0 {
        assert(chunks.flatten() =~= Seq::<u8>::empty());
        assert(post@ =~= pre@ + chunks.flatten());
    } else {
        let mid = choose|mid: Vec<u8>|
            took(pre, chunks.drop_last(), &mid) && #[trigger] mid.accepts(chunks.last(), post);
        lemma_vec_took(pre, chunks.drop_last(), &mid);
        chunks.lemma_flatten_and_flatten_alt_are_equivalent();
        chunks.drop_last().lemma_flatten_and_flatten_alt_are_equivalent();
        assert(chunks.flatten_alt() == chunks.drop_last().flatten_alt() + chunks.last());
        assert(post@ =~= pre@ + chunks.flatten());
    }
}

} // verus!
