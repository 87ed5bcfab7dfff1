use vstd::prelude::*;

use crate::BaseEncoder;
use crate::ByteEncoder;

verus! {

/// `BytesMut` of `bytes`: a buffer of bytes that grows. What it holds is
/// [`bytes_mut_contents`].
#[verifier::external_type_specification]
#[verifier::external_body]
pub struct ExBytesMut(bytes::BytesMut);

/// The bytes that a buffer holds, from its first to its last.
pub uninterp spec fn bytes_mut_contents(buffer: bytes::BytesMut) -> Seq<u8>;

/// `BufMut::put_slice` of `bytes`, for `BytesMut`: the buffer grows as far as
/// it has to and `slice` is copied behind what it holds.
#[verifier::external_body]
fn append_slice(buffer: &mut bytes::BytesMut, slice: &[u8])
    ensures
        bytes_mut_contents(*final(buffer)) == bytes_mut_contents(*old(buffer)) + slice@,
{
    bytes::BufMut::put_slice(buffer, slice)
}

/// `BufMut::put_u8` of `bytes`, for `BytesMut`: the buffer grows as far as it
/// has to and `byte` is put behind what it holds.
#[verifier::external_body]
fn append_byte(buffer: &mut bytes::BytesMut, byte: u8)
    ensures
        bytes_mut_contents(*final(buffer)) == bytes_mut_contents(*old(buffer)).push(byte),
{
    bytes::BufMut::put_u8(buffer, byte)
}

impl BaseEncoder for bytes::BytesMut {
    type Error = core::convert::Infallible;

    /// A buffer takes every write by appending the bytes.
    open spec fn accepts(&self, bytes: Seq<u8>, post: &Self) -> bool {
        bytes_mut_contents(*post) == bytes_mut_contents(*self) + bytes
    }

    /// A buffer refuses nothing.
    open spec fn rejects(&self, bytes: Seq<u8>, post: &Self, err: Self::Error) -> bool {
        false
    }
}

impl ByteEncoder for bytes::BytesMut {
    #[inline]
    fn put_slice(&mut self, slice: &[u8]) -> (res: Result<(), Self::Error>)
        ensures
            res is Ok,
    {
        append_slice(self, slice);
        Ok(())
    }

    #[inline]
    fn put_byte(&mut self, byte: u8) -> (res: Result<(), Self::Error>)
        ensures
            res is Ok,
    {
        append_byte(self, byte);
        assert(bytes_mut_contents(*self) =~= bytes_mut_contents(*old(self)) + seq![byte]);
        Ok(())
    }
}

} // verus!
