use vstd::prelude::*;

use crate::encoders::bytes_mut_contents;
use crate::ByteEncoder;
use crate::Cause;
use crate::Encodable;
use crate::Script;

verus! {

/// `Bytes` of `bytes`: a slice of bytes that is shared. What it holds is
/// [`bytes_contents`].
#[verifier::external_type_specification]
#[verifier::external_body]
pub struct ExBytes(bytes::Bytes);

/// The bytes that a `Bytes` of `bytes` holds, from its first to its last.
pub uninterp spec fn bytes_contents(buffer: bytes::Bytes) -> Seq<u8>;

/// The `Deref` of `Bytes` in `bytes`: the slice of all the bytes that the
/// value holds.
#[verifier::external_body]
fn held_by_bytes(buffer: &bytes::Bytes) -> (slice: &[u8])
    ensures
        slice@ == bytes_contents(*buffer),
{
    core::ops::Deref::deref(buffer)
}

/// The `Deref` of `BytesMut` in `bytes`: the slice of all the bytes that
/// the buffer holds.
#[verifier::external_body]
fn held_by_bytes_mut(buffer: &bytes::BytesMut) -> (slice: &[u8])
    ensures
        slice@ == bytes_mut_contents(*buffer),
{
    core::ops::Deref::deref(buffer)
}

impl<E: ByteEncoder> Encodable<E> for bytes::Bytes {
    type Error = E::Error;

    open spec fn well_formed(&self) -> bool {
        true
    }

    /// A `Bytes` writes the bytes that it holds in one write.
    open spec fn script(&self) -> Script {
        Script::one(bytes_contents(*self))
    }

    open spec fn surfaces(&self, cause: Cause<E::Error>, err: Self::Error) -> bool {
        cause == Cause::Destination(err)
    }

    #[inline]
    fn encode(&self, encoder: &mut E) -> (res: Result<(), Self::Error>) {
        let slice = held_by_bytes(self);
        let res = slice.encode(encoder);
        proof {
            assert(<Self as Encodable<E>>::script(self) == <[u8] as Encodable<E>>::script(slice));
        }
        res
    }
}

impl<E: ByteEncoder> Encodable<E> for bytes::BytesMut {
    type Error = E::Error;

    open spec fn well_formed(&self) -> bool {
        true
    }

    /// A `BytesMut` writes the bytes that it holds in one write.
    open spec fn script(&self) -> Script {
        Script::one(bytes_mut_contents(*self))
    }

    open spec fn surfaces(&self, cause: Cause<E::Error>, err: Self::Error) -> bool {
        cause == Cause::Destination(err)
    }

    #[inline]
    fn encode(&self, encoder: &mut E) -> (res: Result<(), Self::Error>) {
        let slice = held_by_bytes_mut(self);
        let res = slice.encode(encoder);
        proof {
            assert(<Self as Encodable<E>>::script(self) == <[u8] as Encodable<E>>::script(slice));
        }
        res
    }
}

} // verus!
