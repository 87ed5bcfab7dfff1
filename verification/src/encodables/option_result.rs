use vstd::prelude::*;

use crate::BaseEncoder;
use crate::Cause;
use crate::Encodable;
use crate::Script;

verus! {

impl<T, E> Encodable<E> for Option<T> where T: Encodable<E>, E: BaseEncoder {
    type Error = T::Error;

    open spec fn well_formed(&self) -> bool {
        match self {
            Some(value) => value.well_formed(),
            None => true,
        }
    }

    /// An option writes what the value in it writes, and nothing when there
    /// is none.
    open spec fn script(&self) -> Script {
        match self {
            Some(value) => value.script(),
            None => Script::empty(),
        }
    }

    open spec fn surfaces(&self, cause: Cause<E::Error>, err: Self::Error) -> bool {
        match self {
            Some(value) => value.surfaces(cause, err),
            None => false,
        }
    }

    fn encode(&self, encoder: &mut E) -> (res: Result<(), Self::Error>)
        ensures
            *self is None ==> res is Ok && *final(encoder) == *old(encoder),
    {
        match self {
            Some(value) => {
                let res = value.encode(encoder);
                proof {
                    assert(self.script() == value.script());
                }
                res
            },
            None => Ok(()),
        }
    }
}

impl<T, E> Encodable<E> for Result<T, T::Error> where
    T: Encodable<E>,
    E: BaseEncoder,
    T::Error: Clone,
 {
    type Error = T::Error;

    open spec fn well_formed(&self) -> bool {
        match self {
            Ok(value) => value.well_formed(),
            Err(_) => true,
        }
    }

    /// A result writes what the value in it writes. A result that holds an
    /// error fails by itself before it writes anything.
    open spec fn script(&self) -> Script {
        match self {
            Ok(value) => value.script(),
            Err(_) => Script::failed(),
        }
    }

    /// The error that a result holds surfaces as a clone of itself.
    open spec fn surfaces(&self, cause: Cause<E::Error>, err: Self::Error) -> bool {
        match self {
            Ok(value) => value.surfaces(cause, err),
            Err(stored) => cause is Value && cloned(*stored, err),
        }
    }

    fn encode(&self, encoder: &mut E) -> (res: Result<(), Self::Error>)
        ensures
            *self matches Err(stored) ==> {
                &&& res matches Err(err) && cloned(stored, err)
                &&& *final(encoder) == *old(encoder)
            },
    {
        match self {
            Ok(value) => {
                let res = value.encode(encoder);
                proof {
                    assert(self.script() == value.script());
                }
                res
            },
            Err(stored) => {
                let err = stored.clone();
                proof {
                    assert(crate::script::cut_short(
                        self.script(),
                        old(encoder),
                        encoder,
                        Cause::Value,
                    ));
                }
                Err(err)
            },
        }
    }
}

} // verus!
