use vstd::prelude::*;

use crate::script::lemma_wrote_one;
use crate::ByteEncoder;
use crate::BaseEncoder;
use crate::Cause;
use crate::Encodable;
use crate::Script;
use crate::StrEncoder;

verus! {

/// `char::encode_utf8` of `core`: the text that the call returns is the one
/// character `c`. A buffer of four bytes holds every character.
#[verifier::external_body]
fn utf8_of<'a>(c: char, buffer: &'a mut [u8; 4]) -> (text: &'a str)
    ensures
        text@ == seq![c],
{
    c.encode_utf8(buffer)
}

impl<E: StrEncoder> Encodable<E> for char {
    type Error = E::Error;

    open spec fn well_formed(&self) -> bool {
        true
    }

    /// A character writes its UTF-8 form in one write.
    open spec fn script(&self) -> Script {
        Script::one(vstd::utf8::encode_utf8(seq![*self]))
    }

    open spec fn surfaces(&self, cause: Cause<E::Error>, err: Self::Error) -> bool {
        cause == Cause::Destination(err)
    }

    #[inline]
    fn encode(&self, encoder: &mut E) -> (res: Result<(), Self::Error>) {
        let mut buffer = [0u8; 4];
        let text = utf8_of(*self, &mut buffer);
        let res = text.encode(encoder);
        proof {
            assert(<Self as Encodable<E>>::script(self) == <str as Encodable<E>>::script(text));
        }
        res
    }
}

impl<E: ByteEncoder> Encodable<E> for u8 {
    type Error = E::Error;

    open spec fn well_formed(&self) -> bool {
        true
    }

    /// A byte writes itself in one write.
    open spec fn script(&self) -> Script {
        Script::one(seq![*self])
    }

    open spec fn surfaces(&self, cause: Cause<E::Error>, err: Self::Error) -> bool {
        cause == Cause::Destination(err)
    }

    #[inline]
    fn encode(&self, encoder: &mut E) -> (res: Result<(), Self::Error>) {
        let res = encoder.put_byte(*self);
        proof {
            lemma_wrote_one(old(encoder), seq![*self], encoder, res);
            assert(<Self as Encodable<E>>::script(self) == Script::one(seq![*self]));
        }
        res
    }
}

impl<E: ByteEncoder> Encodable<E> for i8 {
    type Error = E::Error;

    open spec fn well_formed(&self) -> bool {
        true
    }

    /// A signed byte writes the unsigned byte of the same eight bits.
    open spec fn script(&self) -> Script {
        Script::one(seq![*self as u8])
    }

    open spec fn surfaces(&self, cause: Cause<E::Error>, err: Self::Error) -> bool {
        cause == Cause::Destination(err)
    }

    #[inline]
    fn encode(&self, encoder: &mut E) -> (res: Result<(), Self::Error>) {
        let byte = *self as u8;
        let res = byte.encode(encoder);
        proof {
            assert(<Self as Encodable<E>>::script(self) == <u8 as Encodable<E>>::script(&byte));
        }
        res
    }
}

impl<E: ByteEncoder> Encodable<E> for bool {
    type Error = E::Error;

    open spec fn well_formed(&self) -> bool {
        true
    }

    /// A boolean writes the byte 1 when it is true and the byte 0 when it is
    /// false.
    open spec fn script(&self) -> Script {
        Script::one(
            seq![if *self {
                1u8
            } else {
                0u8
            }],
        )
    }

    open spec fn surfaces(&self, cause: Cause<E::Error>, err: Self::Error) -> bool {
        cause == Cause::Destination(err)
    }

    #[inline]
    fn encode(&self, encoder: &mut E) -> (res: Result<(), Self::Error>) {
        let byte: u8 = if *self {
            1
        } else {
            0
        };
        let res = byte.encode(encoder);
        proof {
            assert(<Self as Encodable<E>>::script(self) == <u8 as Encodable<E>>::script(&byte));
        }
        res
    }
}

impl<T, E> Encodable<E> for &T where T: Encodable<E> + ?Sized, E: BaseEncoder {
    type Error = T::Error;

    open spec fn well_formed(&self) -> bool {
        (**self).well_formed()
    }

    /// A reference writes what the value behind it writes.
    open spec fn script(&self) -> Script {
        (**self).script()
    }

    open spec fn surfaces(&self, cause: Cause<E::Error>, err: Self::Error) -> bool {
        (**self).surfaces(cause, err)
    }

    #[inline]
    fn encode(&self, encoder: &mut E) -> (res: Result<(), Self::Error>) {
        let res = (**self).encode(encoder);
        proof {
            assert(self.script() == (**self).script());
        }
        res
    }
}

} // verus!
