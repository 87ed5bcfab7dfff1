use vstd::prelude::*;

use crate::BaseEncoder;
use crate::ByteEncoder;

verus! {

impl BaseEncoder for () {
    type Error = core::convert::Infallible;

    /// The unit destination takes every write and keeps nothing.
    open spec fn accepts(&self, bytes: Seq<u8>, post: &Self) -> bool {
        true
    }

    /// The unit destination refuses nothing.
    open spec fn rejects(&self, bytes: Seq<u8>, post: &Self, err: Self::Error) -> bool {
        false
    }
}

impl ByteEncoder for () {
    #[inline]
    fn put_slice(&mut self, slice: &[u8]) -> (res: Result<(), Self::Error>)
        ensures
            res is Ok,
    {
        Ok(())
    }

    #[inline]
    fn put_byte(&mut self, byte: u8) -> (res: Result<(), Self::Error>)
        ensures
            res is Ok,
    {
        Ok(())
    }
}

} // verus!
