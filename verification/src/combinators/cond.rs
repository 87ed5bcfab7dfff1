use core::borrow::Borrow;
use core::ops::Deref;
use vstd::prelude::*;

use crate::BaseEncoder;
use crate::Cause;
use crate::Encodable;
use crate::Script;

verus! {

/// Writes a value only if a predicate holds of it.
///
/// With the predicate "is not empty", a string that is not empty is
/// written as it is and an empty string writes nothing.
#[derive(Debug, Clone, PartialEq, Eq, PartialOrd, Ord)]
pub struct Cond<E, F> {
    encodable: E,
    condition: F,
}

impl<E, F> Cond<E, F> {
    /// The value that is written if the predicate holds.
    pub closed spec fn value(self) -> E {
        self.encodable
    }

    /// The predicate.
    pub closed spec fn predicate(self) -> F {
        self.condition
    }

    /// Puts `encodable` under the predicate `condition`.
    #[inline]
    #[must_use]
    pub fn new(encodable: E, condition: F) -> (cond: Self) where F: Fn(&E) -> bool
        ensures
            cond.value() == encodable,
            cond.predicate() == condition,
    {
        Self { encodable, condition }
    }

    /// Gives the value and the predicate back.
    #[inline]
    #[must_use]
    pub fn into_inner(self) -> (parts: (E, F))
        ensures
            parts.0 == self.value(),
            parts.1 == self.predicate(),
    {
        (self.encodable, self.condition)
    }
}

impl<E, F: Fn(&E) -> bool> Cond<E, F> {
    /// Whether the predicate holds of the value: whenever it answers, it
    /// answers `true`.
    pub open spec fn holds(self) -> bool {
        forall|answer: bool| #[trigger]
            call_ensures(self.predicate(), (&self.value(),), answer) ==> answer
    }

    /// Whether the predicate fails of the value: whenever it answers, it
    /// answers `false`.
    pub open spec fn fails(self) -> bool {
        forall|answer: bool| #[trigger]
            call_ensures(self.predicate(), (&self.value(),), answer) ==> !answer
    }

    /// Whether the predicate can be called on the value and is a function
    /// of it: it holds of the value or it fails of it.
    pub open spec fn decided(self) -> bool {
        &&& call_requires(self.predicate(), (&self.value(),))
        &&& self.holds() || self.fails()
    }
}

impl<E, F> AsRef<E> for Cond<E, F> {
    #[inline]
    fn as_ref(&self) -> (value: &E)
        ensures
            *value == self.value(),
    {
        &self.encodable
    }
}

impl<E, F> Borrow<E> for Cond<E, F> {
    #[inline]
    fn borrow(&self) -> &E
        returns
            &self.value(),
    {
        &self.encodable
    }
}

impl<E, F> Deref for Cond<E, F> {
    type Target = E;

    #[inline]
    fn deref(&self) -> (value: &Self::Target)
        ensures
            *value == self.value(),
    {
        &self.encodable
    }
}

impl<T, E, F> Encodable<E> for Cond<T, F> where
    T: Encodable<E>,
    E: BaseEncoder,
    F: Fn(&T) -> bool,
 {
    type Error = T::Error;

    /// The predicate is decided, and the value is well formed where the
    /// predicate holds of it.
    open spec fn well_formed(&self) -> bool {
        self.decided() && (self.holds() ==> self.value().well_formed())
    }

    /// What the value writes where the predicate holds of it, and nothing
    /// where it does not.
    open spec fn script(&self) -> Script {
        if self.holds() {
            self.value().script()
        } else {
            Script::empty()
        }
    }

    open spec fn surfaces(&self, cause: Cause<E::Error>, err: Self::Error) -> bool {
        self.holds() && self.value().surfaces(cause, err)
    }

    #[inline]
    fn encode(&self, encoder: &mut E) -> (res: Result<(), Self::Error>)
        ensures
            self.fails() ==> res is Ok && *final(encoder) == *old(encoder),
    {
        if (self.condition)(&self.encodable) {
            let res = self.encodable.encode(encoder);
            proof {
                assert(self.script() == self.encodable.script());
            }
            res
        } else {
            Ok(())
        }
    }
}

} // verus!
