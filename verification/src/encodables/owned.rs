use std::borrow::Cow;
use vstd::prelude::*;

use crate::BaseEncoder;
use crate::ByteEncoder;
use crate::Cause;
use crate::Encodable;
use crate::Script;
use crate::StrEncoder;

verus! {

impl<E: ByteEncoder> Encodable<E> for Vec<u8> {
    type Error = E::Error;

    open spec fn well_formed(&self) -> bool {
        true
    }

    /// A vector of bytes writes its bytes in one write.
    open spec fn script(&self) -> Script {
        Script::one(self@)
    }

    open spec fn surfaces(&self, cause: Cause<E::Error>, err: Self::Error) -> bool {
        cause == Cause::Destination(err)
    }

    #[inline]
    fn encode(&self, encoder: &mut E) -> (res: Result<(), Self::Error>) {
        let bytes = self.as_slice();
        let res = bytes.encode(encoder);
        proof {
            assert(<Self as Encodable<E>>::script(self) == <[u8] as Encodable<E>>::script(bytes));
        }
        res
    }
}

impl<E: StrEncoder> Encodable<E> for String {
    type Error = E::Error;

    open spec fn well_formed(&self) -> bool {
        true
    }

    /// A string writes its UTF-8 form in one write.
    open spec fn script(&self) -> Script {
        Script::one(vstd::utf8::encode_utf8(self@))
    }

    open spec fn surfaces(&self, cause: Cause<E::Error>, err: Self::Error) -> bool {
        cause == Cause::Destination(err)
    }

    #[inline]
    fn encode(&self, encoder: &mut E) -> (res: Result<(), Self::Error>) {
        let text = self.as_str();
        let res = text.encode(encoder);
        proof {
            assert(<Self as Encodable<E>>::script(self) == <str as Encodable<E>>::script(text));
        }
        res
    }
}

impl<E: BaseEncoder, T: Encodable<E>> Encodable<E> for Box<T> {
    type Error = T::Error;

    open spec fn well_formed(&self) -> bool {
        (**self).well_formed()
    }

    /// A box writes what the value in it writes.
    open spec fn script(&self) -> Script {
        (**self).script()
    }

    open spec fn surfaces(&self, cause: Cause<E::Error>, err: Self::Error) -> bool {
        (**self).surfaces(cause, err)
    }

    #[inline]
    fn encode(&self, encoder: &mut E) -> (res: Result<(), Self::Error>) {
        let res = (**self).encode(encoder);
        proof {
            assert(self.script() == (**self).script());
        }
        res
    }
}

impl<E, T> Encodable<E> for Cow<'_, T> where T: Clone + Encodable<E>, E: BaseEncoder {
    type Error = T::Error;

    open spec fn well_formed(&self) -> bool {
        match self {
            Cow::Borrowed(value) => value.well_formed(),
            Cow::Owned(value) => value.well_formed(),
        }
    }

    /// A value that is borrowed or owned writes what the value writes.
    open spec fn script(&self) -> Script {
        match self {
            Cow::Borrowed(value) => value.script(),
            Cow::Owned(value) => value.script(),
        }
    }

    open spec fn surfaces(&self, cause: Cause<E::Error>, err: Self::Error) -> bool {
        match self {
            Cow::Borrowed(value) => value.surfaces(cause, err),
            Cow::Owned(value) => value.surfaces(cause, err),
        }
    }

    #[inline]
    fn encode(&self, encoder: &mut E) -> (res: Result<(), Self::Error>) {
        match self {
            Cow::Borrowed(value) => {
                let res = value.encode(encoder);
                proof {
                    assert(self.script() == value.script());
                }
                res
            },
            Cow::Owned(value) => {
                let res = value.encode(encoder);
                proof {
                    assert(self.script() == value.script());
                }
                res
            },
        }
    }
}

impl<E> Encodable<E> for Cow<'_, str> where E: StrEncoder {
    type Error = E::Error;

    open spec fn well_formed(&self) -> bool {
        true
    }

    /// A string that is borrowed or owned writes its UTF-8 form in one
    /// write.
    open spec fn script(&self) -> Script {
        Script::one(vstd::utf8::encode_utf8(self@))
    }

    open spec fn surfaces(&self, cause: Cause<E::Error>, err: Self::Error) -> bool {
        cause == Cause::Destination(err)
    }

    #[inline]
    fn encode(&self, encoder: &mut E) -> (res: Result<(), Self::Error>) {
        match self {
            Cow::Borrowed(text) => {
                let res = text.encode(encoder);
                proof {
                    assert(<Self as Encodable<E>>::script(self) == <str as Encodable<E>>::script(
                        text,
                    ));
                }
                res
            },
            Cow::Owned(text) => {
                let res = text.encode(encoder);
                proof {
                    assert(<Self as Encodable<E>>::script(self) == <String as Encodable<
                        E,
                    >>::script(text));
                }
                res
            },
        }
    }
}

impl<E> Encodable<E> for Cow<'_, [u8]> where E: ByteEncoder {
    type Error = E::Error;

    open spec fn well_formed(&self) -> bool {
        true
    }

    /// Bytes that are borrowed or owned are written in one write.
    open spec fn script(&self) -> Script {
        Script::one(self@)
    }

    open spec fn surfaces(&self, cause: Cause<E::Error>, err: Self::Error) -> bool {
        cause == Cause::Destination(err)
    }

    #[inline]
    fn encode(&self, encoder: &mut E) -> (res: Result<(), Self::Error>) {
        match self {
            Cow::Borrowed(bytes) => {
                let res = bytes.encode(encoder);
                proof {
                    assert(<Self as Encodable<E>>::script(self) == <[u8] as Encodable<E>>::script(
                        bytes,
                    ));
                }
                res
            },
            Cow::Owned(bytes) => {
                let res = bytes.encode(encoder);
                proof {
                    assert(<Self as Encodable<E>>::script(self) == <Vec<u8> as Encodable<
                        E,
                    >>::script(bytes));
                }
                res
            },
        }
    }
}

} // verus!
