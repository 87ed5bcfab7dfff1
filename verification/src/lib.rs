//! Building blocks with which values describe how they are written into a
//! destination: a growable buffer, a buffer of fixed capacity, a sink for
//! text, or a counter of bytes.
//!
//! A destination implements [`BaseEncoder`] and one of [`ByteEncoder`] and
//! [`StrEncoder`]. A value implements [`Encodable`] for the destinations it
//! can be written into. The [`combinators`] build new values of that kind
//! from others.
//!
//! What a value writes is given by its [`Script`]; what a destination does
//! with a write is given by the relations [`BaseEncoder::accepts`] and
//! [`BaseEncoder::rejects`]. The contract of [`Encodable::encode`] is
//! [`ran`]: the script was followed, write by write, until it ended or the
//! destination refused.
use vstd::prelude::*;
use vstd::string::StringSliceAdditionalSpecFns;

pub mod combinators;
pub mod encodables;
pub mod encoders;
pub mod laws;
pub mod run;
pub mod script;

pub use run::ran;
pub use script::Cause;
pub use script::Script;

verus! {

/// A destination for encoded data.
///
/// The two relations describe the destination as a machine over its own
/// states. A destination of which nothing can be said lets both hold of
/// every state, and so does an implementation that says nothing.
pub trait BaseEncoder {
    /// The error with which the destination refuses a write.
    type Error;

    /// Whether `post` is a state in which the destination may be after it
    /// has taken `bytes` in the state `self`.
    open spec fn accepts(&self, bytes: Seq<u8>, post: &Self) -> bool {
        true
    }

    /// Whether the destination in the state `self` may refuse `bytes` with
    /// `err` and be left in `post`.
    open spec fn rejects(&self, bytes: Seq<u8>, post: &Self, err: Self::Error) -> bool {
        true
    }
}

/// A destination that takes text.
pub trait StrEncoder: BaseEncoder {
    /// Hands the UTF-8 form of `string` to the destination in one write.
    fn put_str(&mut self, string: &str) -> (res: Result<(), Self::Error>)
        ensures
            script::wrote(old(self), string.spec_bytes(), final(self), res),
    ;
}

/// A destination that takes bytes. Every such destination takes text too.
pub trait ByteEncoder: BaseEncoder {
    /// Hands `slice` to the destination in one write.
    fn put_slice(&mut self, slice: &[u8]) -> (res: Result<(), Self::Error>)
        ensures
            script::wrote(old(self), slice@, final(self), res),
    ;

    /// Hands the single byte `byte` to the destination in one write.
    fn put_byte(&mut self, byte: u8) -> (res: Result<(), Self::Error>)
        ensures
            script::wrote(old(self), seq![byte], final(self), res),
    ;
}

/// A value that can write itself into a destination of type `E`.
pub trait Encodable<E: BaseEncoder> {
    /// The error with which encoding ends when it fails.
    type Error: From<E::Error>;

    /// Whether the predicates and conversions that the value carries can be
    /// called and are functions of their arguments.
    ///
    /// An implementation that does not say so is not taken to be well
    /// formed.
    open spec fn well_formed(&self) -> bool {
        false
    }

    /// What the value asks of a destination.
    open spec fn script(&self) -> Script {
        Script::failed()
    }

    /// Whether `err` is an error in which encoding the value may end for
    /// the given cause.
    open spec fn surfaces(&self, cause: Cause<E::Error>, err: Self::Error) -> bool {
        false
    }

    /// Writes the value into `encoder`.
    fn encode(&self, encoder: &mut E) -> (res: Result<(), Self::Error>)
        requires
            self.well_formed(),
        ensures
            match res {
                Ok(()) => script::finished(self.script(), old(encoder), final(encoder)),
                Err(err) => exists|cause: Cause<E::Error>|
                    {
                        &&& #[trigger] script::cut_short(
                            self.script(),
                            old(encoder),
                            final(encoder),
                            cause,
                        )
                        &&& self.surfaces(cause, err)
                    },
            },
    ;
}

/// A value whose encoded length can be computed: every value that can be
/// written into a [`SizeEncoder`](encoders::SizeEncoder).
pub trait EncodableSize: Encodable<encoders::SizeEncoder> {
    /// The number of bytes that the value writes, found by the writes
    /// themselves. The number stops at `usize::MAX`.
    ///
    /// The call fails exactly when the value fails by itself.
    fn encoded_size(&self) -> (res: Result<usize, Self::Error>)
        requires
            self.well_formed(),
        ensures
            match res {
                Ok(size) => self.script().complete && size == encoders::counted(
                    0,
                    self.script().bytes().len(),
                ),
                Err(err) => !self.script().complete && self.surfaces(Cause::Value, err),
            },
    ;
}

impl<T: ByteEncoder> StrEncoder for T {
    #[inline]
    fn put_str(&mut self, string: &str) -> (res: Result<(), Self::Error>) {
        self.put_slice(string.as_bytes())
    }
}

impl<T> EncodableSize for T where T: Encodable<encoders::SizeEncoder> {
    #[inline]
    fn encoded_size(&self) -> (res: Result<usize, Self::Error>) {
        let mut encoder = encoders::SizeEncoder::new();
        let ghost start = encoder;
        match self.encode(&mut encoder) {
            Ok(()) => {
                proof {
                    encoders::lemma_counter_took(&start, self.script().chunks, &encoder);
                }
                Ok(encoder.size())
            },
            Err(err) => Err(err),
        }
    }
}

} // verus!
