use core::borrow::Borrow;
use core::cmp::Ordering;
use core::marker::PhantomData;
use core::ops::Deref;
use vstd::prelude::*;
use vstd::std_specs::cmp::PartialEqSpec;
use vstd::std_specs::cmp::PartialEqSpecImpl;
use vstd::std_specs::cmp::PartialOrdSpec;
use vstd::std_specs::cmp::PartialOrdSpecImpl;
use vstd::std_specs::convert::FromSpec;

use crate::script::cut_short;
use crate::BaseEncoder;
use crate::Cause;
use crate::Encodable;
use crate::Script;

verus! {

/// Whether `err` may be what the conversion of `source` into the type of
/// `err` gives: where the conversion is a function, `err` is its value.
pub open spec fn converts<S, D: From<S>>(source: S, err: D) -> bool {
    D::obeys_from_spec() ==> err == D::from_spec(source)
}

/// Writes a value as it is and hands on its errors as errors of another
/// type.
///
/// Members of a tuple have one error type in common. This wrapper gives a
/// member that type.
#[derive(Debug, Ord)]
pub struct FromError<E, DstError> {
    encodable: E,
    error: PhantomData<DstError>,
}

impl<E, DstError> FromError<E, DstError> {
    /// The value that is written.
    pub closed spec fn value(self) -> E {
        self.encodable
    }

    /// Wraps `encodable`.
    #[inline]
    #[must_use]
    pub fn new(encodable: E) -> (wrapper: Self)
        ensures
            wrapper.value() == encodable,
    {
        Self { encodable, error: PhantomData }
    }

    /// Gives the value back.
    #[inline]
    #[must_use]
    pub fn into_inner(self) -> (encodable: E)
        ensures
            encodable == self.value(),
    {
        self.encodable
    }
}

impl<E: Clone, DstError> Clone for FromError<E, DstError> {
    fn clone(&self) -> (copy: Self)
        ensures
            cloned(self.value(), copy.value()),
    {
        Self { encodable: self.encodable.clone(), error: PhantomData }
    }
}

impl<E: Copy, DstError> Copy for FromError<E, DstError> {}

impl<E: Default, DstError> Default for FromError<E, DstError> {
    fn default() -> (wrapper: Self)
        ensures
            call_ensures(E::default, (), wrapper.value()),
    {
        Self { encodable: Default::default(), error: PhantomData }
    }
}

impl<E: PartialEq, DstError> PartialEq for FromError<E, DstError> {
    fn eq(&self, other: &Self) -> (equal: bool) {
        self.encodable == other.encodable
    }
}

impl<E: PartialEq, DstError> PartialEqSpecImpl for FromError<E, DstError> {
    open spec fn obeys_eq_spec() -> bool {
        E::obeys_eq_spec()
    }

    open spec fn eq_spec(&self, other: &Self) -> bool {
        self.value().eq_spec(&other.value())
    }
}

impl<E: Eq, DstError> Eq for FromError<E, DstError> {}

impl<E: PartialOrd, DstError> PartialOrd for FromError<E, DstError> {
    fn partial_cmp(&self, other: &Self) -> (order: Option<Ordering>) {
        self.encodable.partial_cmp(&other.encodable)
    }
}

impl<E: PartialOrd, DstError> PartialOrdSpecImpl for FromError<E, DstError> {
    open spec fn obeys_partial_cmp_spec() -> bool {
        E::obeys_partial_cmp_spec()
    }

    open spec fn partial_cmp_spec(&self, other: &Self) -> Option<Ordering> {
        self.value().partial_cmp_spec(&other.value())
    }
}

impl<E, DstError> Deref for FromError<E, DstError> {
    type Target = E;

    fn deref(&self) -> (value: &Self::Target)
        ensures
            *value == self.value(),
    {
        &self.encodable
    }
}

impl<E, DstError> AsRef<E> for FromError<E, DstError> {
    #[inline]
    fn as_ref(&self) -> (value: &E)
        ensures
            *value == self.value(),
    {
        &self.encodable
    }
}

impl<E, DstError> Borrow<E> for FromError<E, DstError> {
    fn borrow(&self) -> &E
        returns
            &self.value(),
    {
        &self.encodable
    }
}

impl<T, E, DstError> Encodable<E> for FromError<T, DstError> where
    DstError: From<T::Error> + From<E::Error>,
    T: Encodable<E>,
    E: BaseEncoder,
 {
    type Error = DstError;

    open spec fn well_formed(&self) -> bool {
        self.value().well_formed()
    }

    /// What the value writes.
    open spec fn script(&self) -> Script {
        self.value().script()
    }

    /// The errors of the value, converted.
    open spec fn surfaces(&self, cause: Cause<E::Error>, err: Self::Error) -> bool {
        exists|inner: T::Error| #[trigger]
            self.value().surfaces(cause, inner) && converts::<T::Error, DstError>(inner, err)
    }

    #[inline]
    fn encode(&self, encoder: &mut E) -> (res: Result<(), Self::Error>) {
        match self.encodable.encode(encoder) {
            Ok(()) => {
                proof {
                    assert(self.script() == self.encodable.script());
                }
                Ok(())
            },
            Err(inner) => {
                let err = <DstError as From<T::Error>>::from(inner);
                proof {
                    let cause = choose|cause: Cause<E::Error>| #[trigger]
                        cut_short(self.encodable.script(), old(encoder), encoder, cause)
                            && self.encodable.surfaces(cause, inner);
                    assert(cut_short(self.script(), old(encoder), encoder, cause));
                    assert(self.value().surfaces(cause, inner));
                    assert(converts::<T::Error, DstError>(inner, err));
                }
                Err(err)
            },
        }
    }
}

} // verus!
