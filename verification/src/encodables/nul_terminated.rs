use vstd::prelude::*;

use crate::ByteEncoder;
use crate::Cause;
use crate::Encodable;
use crate::Script;

verus! {

/// Whether `bytes` end in the byte 0 and hold no other byte 0.
pub open spec fn terminated(bytes: Seq<u8>) -> bool {
    &&& bytes.len() > 0
    &&& bytes.last() == 0
    &&& forall|i: int| 0 <= i < bytes.len() - 1 ==> bytes[i] != 0
}

/// A string of bytes that ends in the byte 0 and holds no other byte 0, as
/// the strings of C do. It is written with the byte 0 at its end.
#[derive(Debug, Clone, Copy, PartialEq, Eq, PartialOrd, Ord)]
pub struct NulTerminated<'a> {
    bytes: &'a [u8],
}

impl<'a> NulTerminated<'a> {
    /// The bytes of the string, the byte 0 at their end included.
    pub closed spec fn bytes_with_nul(self) -> Seq<u8> {
        self.bytes@
    }

    #[verifier::type_invariant]
    spec fn ends_in_nul(self) -> bool {
        terminated(self.bytes@)
    }

    /// The string of the bytes `bytes`, if they end in the byte 0 and hold
    /// no other byte 0.
    pub fn from_bytes_with_nul(bytes: &'a [u8]) -> (string: Option<Self>)
        ensures
            string is Some <==> terminated(bytes@),
            string matches Some(string) ==> string.bytes_with_nul() == bytes@,
    {
        if bytes.len() == 0 {
            return None;
        }
        let last = bytes.len() - 1;
        let mut at: usize = 0;
        while at < last
            invariant
                at <= last,
                last == bytes@.len() - 1,
                forall|i: int| 0 <= i < at ==> bytes@[i] != 0,
            decreases last - at,
        {
            if bytes[at] == 0 {
                return None;
            }
            at += 1;
        }
        if bytes[last] != 0 {
            return None;
        }
        Some(NulTerminated { bytes })
    }

    /// The bytes of the string, the byte 0 at their end included.
    pub fn to_bytes_with_nul(&self) -> (bytes: &'a [u8])
        ensures
            bytes@ == self.bytes_with_nul(),
            terminated(bytes@),
    {
        proof {
            use_type_invariant(self);
        }
        self.bytes
    }

    /// Whether the string holds nothing but the byte 0 at its end.
    pub fn is_empty(&self) -> (empty: bool)
        ensures
            empty == (self.bytes_with_nul().len() == 1),
    {
        self.bytes.len() == 1
    }
}

impl<'a, E: ByteEncoder> Encodable<E> for NulTerminated<'a> {
    type Error = E::Error;

    open spec fn well_formed(&self) -> bool {
        true
    }

    /// The bytes of the string and the byte 0 at their end, in one write.
    open spec fn script(&self) -> Script {
        Script::one(self.bytes_with_nul())
    }

    open spec fn surfaces(&self, cause: Cause<E::Error>, err: Self::Error) -> bool {
        cause == Cause::Destination(err)
    }

    #[inline]
    fn encode(&self, encoder: &mut E) -> (res: Result<(), Self::Error>) {
        let bytes = self.to_bytes_with_nul();
        let res = bytes.encode(encoder);
        proof {
            assert(<Self as Encodable<E>>::script(self) == <[u8] as Encodable<E>>::script(bytes));
        }
        res
    }
}

} // verus!
