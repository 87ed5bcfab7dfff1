use vstd::prelude::*;
use vstd::string::StringSliceAdditionalSpecFns;

use crate::script::lemma_wrote_one;
use crate::ByteEncoder;
use crate::Cause;
use crate::Encodable;
use crate::Script;
use crate::StrEncoder;

verus! {

impl<E> Encodable<E> for [u8] where E: ByteEncoder {
    type Error = E::Error;

    open spec fn well_formed(&self) -> bool {
        true
    }

    /// A slice of bytes writes its bytes in one write.
    open spec fn script(&self) -> Script {
        Script::one(self@)
    }

    open spec fn surfaces(&self, cause: Cause<E::Error>, err: Self::Error) -> bool {
        cause == Cause::Destination(err)
    }

    #[inline]
    fn encode(&self, encoder: &mut E) -> (res: Result<(), Self::Error>) {
        let res = encoder.put_slice(self);
        proof {
            lemma_wrote_one(old(encoder), self@, encoder, res);
            assert(<Self as Encodable<E>>::script(self) == Script::one(self@));
        }
        res
    }
}

impl<const SIZE: usize, E> Encodable<E> for [u8; SIZE] where E: ByteEncoder {
    type Error = E::Error;

    open spec fn well_formed(&self) -> bool {
        true
    }

    /// An array of bytes writes its bytes in one write.
    open spec fn script(&self) -> Script {
        Script::one(self@)
    }

    open spec fn surfaces(&self, cause: Cause<E::Error>, err: Self::Error) -> bool {
        cause == Cause::Destination(err)
    }

    #[inline]
    fn encode(&self, encoder: &mut E) -> (res: Result<(), Self::Error>) {
        let bytes = self.as_slice();
        let res = bytes.encode(encoder);
        proof {
            assert(<Self as Encodable<E>>::script(self) == <[u8] as Encodable<E>>::script(bytes));
        }
        res
    }
}

impl<E> Encodable<E> for str where E: StrEncoder {
    type Error = E::Error;

    open spec fn well_formed(&self) -> bool {
        true
    }

    /// A string writes its UTF-8 form in one write.
    open spec fn script(&self) -> Script {
        Script::one(self.spec_bytes())
    }

    open spec fn surfaces(&self, cause: Cause<E::Error>, err: Self::Error) -> bool {
        cause == Cause::Destination(err)
    }

    #[inline]
    fn encode(&self, encoder: &mut E) -> (res: Result<(), Self::Error>) {
        let res = encoder.put_str(self);
        proof {
            lemma_wrote_one(old(encoder), self.spec_bytes(), encoder, res);
            assert(<Self as Encodable<E>>::script(self) == Script::one(self.spec_bytes()));
        }
        res
    }
}

} // verus!
