use core::borrow::Borrow;
use core::cmp::Ordering;
use core::marker::PhantomData;
use core::ops::Deref;
use vstd::prelude::*;
use vstd::std_specs::cmp::PartialEqSpec;
use vstd::std_specs::cmp::PartialEqSpecImpl;
use vstd::std_specs::cmp::PartialOrdSpec;
use vstd::std_specs::cmp::PartialOrdSpecImpl;
use vstd::std_specs::convert::FromSpecImpl;
use vstd::std_specs::convert::TryFromSpec;

use super::from_error::converts;
use crate::encoders::counted;
use crate::encoders::SizeEncoder;
use crate::run::encode_member;
use crate::script::cut_short;
use crate::script::lemma_sequence_one;
use crate::script::lemma_sequence_pair;
use crate::script::sequence;
use crate::BaseEncoder;
use crate::Cause;
use crate::Encodable;
use crate::EncodableSize;
use crate::Script;

verus! {

/// Writes the length of a value's encoded form and then the value: a field
/// of type, length and value without the type.
///
/// The length is found by a first run of the value against a
/// [`SizeEncoder`] and is narrowed to the type `Length`, which writes it.
/// With `u8` for `Length`, the text `"hello"` is written as the byte 5 and
/// the five bytes of the text.
///
/// The length counts the value alone. A format whose length field counts
/// the field itself has to add the width of the field before it narrows.
#[derive(Debug, Ord)]
pub struct LengthPrefix<T, Length, Error> {
    encodable: T,
    phantom: PhantomData<(Length, Error)>,
}

impl<T, Length, Error> LengthPrefix<T, Length, Error> {
    /// The value that is written behind its length.
    pub closed spec fn value(self) -> T {
        self.encodable
    }

    /// The wrapper of `encodable`.
    pub closed spec fn holding(encodable: T) -> Self {
        LengthPrefix { encodable, phantom: PhantomData }
    }

    /// The wrapper of a value holds that value.
    pub proof fn lemma_holding(encodable: T)
        ensures
            Self::holding(encodable).value() == encodable,
    {
    }

    /// Puts `encodable` behind its length.
    #[inline]
    #[must_use]
    pub fn new(encodable: T) -> (prefixed: Self)
        ensures
            prefixed == Self::holding(encodable),
            prefixed.value() == encodable,
    {
        Self { encodable, phantom: PhantomData }
    }

    /// Gives the value back.
    #[inline]
    #[must_use]
    pub fn into_inner(self) -> (encodable: T)
        ensures
            encodable == self.value(),
    {
        self.encodable
    }
}

impl<T, Length, Error> From<T> for LengthPrefix<T, Length, Error> {
    fn from(value: T) -> (prefixed: Self) {
        Self::new(value)
    }
}

impl<T, Length, Error> FromSpecImpl<T> for LengthPrefix<T, Length, Error> {
    open spec fn obeys_from_spec() -> bool {
        true
    }

    open spec fn from_spec(value: T) -> Self {
        Self::holding(value)
    }
}

impl<T, Length, Error> AsRef<T> for LengthPrefix<T, Length, Error> {
    #[inline]
    fn as_ref(&self) -> (value: &T)
        ensures
            *value == self.value(),
    {
        &self.encodable
    }
}

impl<T: Clone, Length, Error> Clone for LengthPrefix<T, Length, Error> {
    fn clone(&self) -> (copy: Self)
        ensures
            cloned(self.value(), copy.value()),
    {
        Self { encodable: self.encodable.clone(), phantom: PhantomData }
    }
}

impl<T: Copy, Length, Error> Copy for LengthPrefix<T, Length, Error> {}

impl<T: Default, Length, Error> Default for LengthPrefix<T, Length, Error> {
    fn default() -> (wrapper: Self)
        ensures
            call_ensures(T::default, (), wrapper.value()),
    {
        Self { encodable: Default::default(), phantom: PhantomData }
    }
}

impl<T: PartialEq, Length, Error> PartialEq for LengthPrefix<T, Length, Error> {
    fn eq(&self, other: &Self) -> (equal: bool) {
        self.encodable == other.encodable
    }
}

impl<T: PartialEq, Length, Error> PartialEqSpecImpl for LengthPrefix<T, Length, Error> {
    open spec fn obeys_eq_spec() -> bool {
        T::obeys_eq_spec()
    }

    open spec fn eq_spec(&self, other: &Self) -> bool {
        self.value().eq_spec(&other.value())
    }
}

impl<T: Eq, Length, Error> Eq for LengthPrefix<T, Length, Error> {}

impl<T: PartialOrd, Length, Error> PartialOrd for LengthPrefix<T, Length, Error> {
    fn partial_cmp(&self, other: &Self) -> (order: Option<Ordering>) {
        self.encodable.partial_cmp(&other.encodable)
    }
}

impl<T: PartialOrd, Length, Error> PartialOrdSpecImpl for LengthPrefix<T, Length, Error> {
    open spec fn obeys_partial_cmp_spec() -> bool {
        T::obeys_partial_cmp_spec()
    }

    open spec fn partial_cmp_spec(&self, other: &Self) -> Option<Ordering> {
        self.value().partial_cmp_spec(&other.value())
    }
}

impl<T, Length, Error> Deref for LengthPrefix<T, Length, Error> {
    type Target = T;

    fn deref(&self) -> (value: &Self::Target)
        ensures
            *value == self.value(),
    {
        &self.encodable
    }
}

impl<T, Length, Error> Borrow<T> for LengthPrefix<T, Length, Error> {
    fn borrow(&self) -> &T
        returns
            &self.value(),
    {
        &self.encodable
    }
}

/// The length that is written for `value`: the number of the bytes that the
/// value hands to a [`SizeEncoder`], held at `usize::MAX`.
pub open spec fn measured<T: Encodable<SizeEncoder>>(value: T) -> usize {
    counted(0, value.script().bytes().len())
}

impl<T, Length, E, Error> Encodable<E> for LengthPrefix<T, Length, Error> where
    E: BaseEncoder,
    T: Encodable<E> + Encodable<SizeEncoder>,
    Length: Encodable<E> + TryFrom<usize>,
    Error: From<<Length as Encodable<E>>::Error> + From<<Length as TryFrom<usize>>::Error> + From<
        <T as Encodable<E>>::Error,
    > + From<<T as Encodable<SizeEncoder>>::Error> + From<E::Error>,
 {
    type Error = Error;

    /// The narrowing to `Length` is a function of the length, the value is
    /// well formed for both of its runs, and the narrowed length is well
    /// formed.
    open spec fn well_formed(&self) -> bool {
        &&& Length::obeys_try_from_spec()
        &&& <T as Encodable<SizeEncoder>>::well_formed(&self.value())
        &&& <T as Encodable<E>>::well_formed(&self.value())
        &&& <T as Encodable<SizeEncoder>>::script(&self.value()).complete ==> (
        Length::try_from_spec(measured(self.value())) matches Ok(length)
            ==> length.well_formed())
    }

    /// What the narrowed length writes and then what the value writes.
    ///
    /// The script fails at its start where the value fails by itself in
    /// the run that measures it, and where the length does not fit into
    /// `Length`.
    open spec fn script(&self) -> Script {
        if !<T as Encodable<SizeEncoder>>::script(&self.value()).complete {
            Script::failed()
        } else {
            match Length::try_from_spec(measured(self.value())) {
                Ok(length) => length.script().followed_by(
                    <T as Encodable<E>>::script(&self.value()),
                ),
                Err(_) => Script::failed(),
            }
        }
    }

    /// The errors of the run that measures the value, of the narrowing, of
    /// the length and of the value, each converted and each where the run
    /// gets as far.
    open spec fn surfaces(&self, cause: Cause<E::Error>, err: Self::Error) -> bool {
        ||| {
            &&& cause is Value
            &&& !<T as Encodable<SizeEncoder>>::script(&self.value()).complete
            &&& exists|inner: <T as Encodable<SizeEncoder>>::Error| #[trigger]
                <T as Encodable<SizeEncoder>>::surfaces(&self.value(), Cause::Value, inner)
                    && converts::<<T as Encodable<SizeEncoder>>::Error, Error>(inner, err)
        }
        ||| {
            &&& cause is Value
            &&& <T as Encodable<SizeEncoder>>::script(&self.value()).complete
            &&& exists|inner: <Length as TryFrom<usize>>::Error|
                Length::try_from_spec(measured(self.value())) == Err::<Length, _>(inner)
                    && #[trigger] converts::<<Length as TryFrom<usize>>::Error, Error>(inner, err)
        }
        ||| {
            &&& <T as Encodable<SizeEncoder>>::script(&self.value()).complete
            &&& Length::try_from_spec(measured(self.value())) is Ok
            &&& exists|inner: <Length as Encodable<E>>::Error| #[trigger]
                Length::try_from_spec(measured(self.value()))->Ok_0.surfaces(cause, inner)
                    && converts::<<Length as Encodable<E>>::Error, Error>(inner, err)
        }
        ||| {
            &&& <T as Encodable<SizeEncoder>>::script(&self.value()).complete
            &&& Length::try_from_spec(measured(self.value())) is Ok
            &&& Length::try_from_spec(measured(self.value()))->Ok_0.script().complete
            &&& exists|inner: <T as Encodable<E>>::Error| #[trigger]
                <T as Encodable<E>>::surfaces(&self.value(), cause, inner) && converts::<
                    <T as Encodable<E>>::Error,
                    Error,
                >(inner, err)
        }
    }

    #[inline]
    fn encode(&self, encoder: &mut E) -> (res: Result<(), Self::Error>) {
        let len = match self.encodable.encoded_size() {
            Ok(len) => len,
            Err(inner) => {
                let err = <Error as From<<T as Encodable<SizeEncoder>>::Error>>::from(inner);
                proof {
                    assert(cut_short(self.script(), old(encoder), encoder, Cause::Value));
                    assert(<T as Encodable<SizeEncoder>>::surfaces(
                        &self.value(),
                        Cause::Value,
                        inner,
                    ));
                    assert(converts::<<T as Encodable<SizeEncoder>>::Error, Error>(inner, err));
                }
                return Err(err);
            },
        };
        let length = match Length::try_from(len) {
            Ok(length) => length,
            Err(inner) => {
                let err = <Error as From<<Length as TryFrom<usize>>::Error>>::from(inner);
                proof {
                    assert(cut_short(self.script(), old(encoder), encoder, Cause::Value));
                    assert(converts::<<Length as TryFrom<usize>>::Error, Error>(inner, err));
                }
                return Err(err);
            },
        };
        let ghost start = *encoder;
        let ghost scripts = seq![length.script(), <T as Encodable<E>>::script(&self.encodable)];
        proof {
            assert(scripts.take(0) =~= Seq::<Script>::empty());
            lemma_sequence_pair(scripts[0], scripts[1]);
            assert(self.script() == sequence(scripts));
        }
        match encode_member(&length, encoder, Ghost(start), Ghost(scripts), Ghost(0)) {
            Ok(()) => {},
            Err(inner) => {
                let err = <Error as From<<Length as Encodable<E>>::Error>>::from(inner);
                proof {
                    let cause = choose|cause: Cause<E::Error>| #[trigger]
                        cut_short(sequence(scripts), &start, encoder, cause) && length.surfaces(
                            cause,
                            inner,
                        );
                    assert(length.surfaces(cause, inner));
                    assert(converts::<<Length as Encodable<E>>::Error, Error>(inner, err));
                }
                return Err(err);
            },
        }
        match encode_member(&self.encodable, encoder, Ghost(start), Ghost(scripts), Ghost(1)) {
            Ok(()) => {},
            Err(inner) => {
                let err = <Error as From<<T as Encodable<E>>::Error>>::from(inner);
                proof {
                    let cause = choose|cause: Cause<E::Error>| #[trigger]
                        cut_short(sequence(scripts), &start, encoder, cause) && <T as Encodable<
                            E,
                        >>::surfaces(&self.encodable, cause, inner);
                    assert(<T as Encodable<E>>::surfaces(&self.value(), cause, inner));
                    assert(converts::<<T as Encodable<E>>::Error, Error>(inner, err));
                    lemma_sequence_one(scripts[0]);
                    assert(scripts.take(1) =~= seq![scripts[0]]);
                }
                return Err(err);
            },
        }
        proof {
            assert(scripts.take(2) =~= scripts);
        }
        Ok(())
    }
}

} // verus!
