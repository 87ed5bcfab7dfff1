use core::borrow::Borrow;
use core::ops::Deref;
use vstd::prelude::*;

use crate::run::encode_member;
use crate::script::cut_short;
use crate::script::finished;
use crate::script::reached;
use crate::script::sequence;
use crate::BaseEncoder;
use crate::Cause;
use crate::Encodable;
use crate::Script;

verus! {

broadcast use vstd::std_specs::control_flow::group_control_flow_axioms;

/// The scripts of `items`, one for each item and in their order.
pub open spec fn scripts_of<E: BaseEncoder, T: Encodable<E>>(items: Seq<T>) -> Seq<Script> {
    Seq::new(items.len(), |i: int| items[i].script())
}

/// Whether every item of `items` is well formed.
pub open spec fn all_well_formed<E: BaseEncoder, T: Encodable<E>>(items: Seq<T>) -> bool {
    forall|i: int| 0 <= i < items.len() ==> (#[trigger] items[i]).well_formed()
}

/// Whether `err` surfaces for `cause` from an item of `items` that a run
/// over them gets as far as.
pub open spec fn any_surfaces<E: BaseEncoder, T: Encodable<E>>(
    items: Seq<T>,
    cause: Cause<E::Error>,
    err: T::Error,
) -> bool {
    exists|i: int|
        {
            &&& 0 <= i < items.len()
            &&& reached(scripts_of::<E, T>(items), i)
            &&& (#[trigger] items[i]).surfaces(cause, err)
        }
}

/// Writes the items of a sequence one after the other, with nothing
/// between them.
///
/// The sequence is a slice, an array or a vector, held by value or by
/// reference.
#[derive(Debug, Clone, PartialEq, Eq, PartialOrd, Ord)]
pub struct Iter<I> {
    encodable_iter: I,
}

impl<I> Iter<I> {
    /// The sequence of the items that are written.
    pub closed spec fn items(self) -> I {
        self.encodable_iter
    }

    /// Wraps the sequence `encodable_iter`.
    #[inline]
    #[must_use]
    pub fn new(encodable_iter: I) -> (iter: Self)
        ensures
            iter.items() == encodable_iter,
    {
        Self { encodable_iter }
    }

    /// Gives the sequence back.
    #[inline]
    #[must_use]
    pub fn into_inner(self) -> (encodable_iter: I)
        ensures
            encodable_iter == self.items(),
    {
        self.encodable_iter
    }
}

impl<I> AsRef<I> for Iter<I> {
    #[inline]
    fn as_ref(&self) -> (items: &I)
        ensures
            *items == self.items(),
    {
        &self.encodable_iter
    }
}

impl<I> Borrow<I> for Iter<I> {
    #[inline]
    fn borrow(&self) -> &I
        returns
            &self.items(),
    {
        &self.encodable_iter
    }
}

impl<I> Deref for Iter<I> {
    type Target = I;

    #[inline]
    fn deref(&self) -> (items: &Self::Target)
        ensures
            *items == self.items(),
    {
        &self.encodable_iter
    }
}

/// Writes the items of `items` into `encoder`, from the first to the last,
/// and stops at the first that fails.
pub(crate) fn encode_each<E: BaseEncoder, T: Encodable<E>>(items: &[T], encoder: &mut E) -> (res:
    Result<(), T::Error>)
    requires
        all_well_formed::<E, T>(items@),
    ensures
        match res {
            Ok(()) => finished(
                sequence(scripts_of::<E, T>(items@)),
                old(encoder),
                final(encoder),
            ),
            Err(err) => exists|cause: Cause<E::Error>|
                {
                    &&& #[trigger] cut_short(
                        sequence(scripts_of::<E, T>(items@)),
                        old(encoder),
                        final(encoder),
                        cause,
                    )
                    &&& any_surfaces::<E, T>(items@, cause, err)
                },
        },
{
    let ghost start = *encoder;
    let ghost scripts = scripts_of::<E, T>(items@);
    proof {
        assert(scripts.take(0) =~= Seq::<Script>::empty());
    }
    let mut at: usize = 0;
    while at < items.len()
        invariant
            at <= items.len(),
            all_well_formed::<E, T>(items@),
            scripts == scripts_of::<E, T>(items@),
            start == *old(encoder),
            finished(sequence(scripts.take(at as int)), &start, encoder),
        decreases items.len() - at,
    {
        match encode_member(&items[at], encoder, Ghost(start), Ghost(scripts), Ghost(at as int)) {
            Ok(()) => {},
            Err(err) => {
                proof {
                    let item = items@[at as int];
                    let cause = choose|cause: Cause<E::Error>| #[trigger]
                        cut_short(sequence(scripts), &start, encoder, cause) && item.surfaces(
                            cause,
                            err,
                        );
                    assert(any_surfaces::<E, T>(items@, cause, err));
                }
                return Err(err);
            },
        }
        at += 1;
    }
    proof {
        assert(scripts.take(at as int) =~= scripts);
    }
    Ok(())
}

impl<'a, T, E> Encodable<E> for Iter<&'a [T]> where T: Encodable<E>, E: BaseEncoder {
    type Error = T::Error;

    open spec fn well_formed(&self) -> bool {
        all_well_formed::<E, T>(self.items()@)
    }

    /// What the items write, from the first to the last.
    open spec fn script(&self) -> Script {
        sequence(scripts_of::<E, T>(self.items()@))
    }

    open spec fn surfaces(&self, cause: Cause<E::Error>, err: Self::Error) -> bool {
        any_surfaces::<E, T>(self.items()@, cause, err)
    }

    #[inline]
    fn encode(&self, encoder: &mut E) -> (res: Result<(), Self::Error>) {
        let items = self.encodable_iter;
        let res = encode_each(items, encoder);
        proof {
            assert(self.script() == sequence(scripts_of::<E, T>(items@)));
        }
        res
    }
}

impl<'a, T, E, const N: usize> Encodable<E> for Iter<&'a [T; N]> where
    T: Encodable<E>,
    E: BaseEncoder,
 {
    type Error = T::Error;

    open spec fn well_formed(&self) -> bool {
        all_well_formed::<E, T>(self.items()@)
    }

    /// What the items write, from the first to the last.
    open spec fn script(&self) -> Script {
        sequence(scripts_of::<E, T>(self.items()@))
    }

    open spec fn surfaces(&self, cause: Cause<E::Error>, err: Self::Error) -> bool {
        any_surfaces::<E, T>(self.items()@, cause, err)
    }

    #[inline]
    fn encode(&self, encoder: &mut E) -> (res: Result<(), Self::Error>) {
        let items = self.encodable_iter.as_slice();
        let res = encode_each(items, encoder);
        proof {
            assert(self.script() == sequence(scripts_of::<E, T>(items@)));
        }
        res
    }
}

impl<T, E, const N: usize> Encodable<E> for Iter<[T; N]> where T: Encodable<E>, E: BaseEncoder {
    type Error = T::Error;

    open spec fn well_formed(&self) -> bool {
        all_well_formed::<E, T>(self.items()@)
    }

    /// What the items write, from the first to the last.
    open spec fn script(&self) -> Script {
        sequence(scripts_of::<E, T>(self.items()@))
    }

    open spec fn surfaces(&self, cause: Cause<E::Error>, err: Self::Error) -> bool {
        any_surfaces::<E, T>(self.items()@, cause, err)
    }

    #[inline]
    fn encode(&self, encoder: &mut E) -> (res: Result<(), Self::Error>) {
        let items = self.encodable_iter.as_slice();
        let res = encode_each(items, encoder);
        proof {
            assert(self.script() == sequence(scripts_of::<E, T>(items@)));
        }
        res
    }
}

impl<'a, T, E> Encodable<E> for Iter<&'a Vec<T>> where T: Encodable<E>, E: BaseEncoder {
    type Error = T::Error;

    open spec fn well_formed(&self) -> bool {
        all_well_formed::<E, T>(self.items()@)
    }

    /// What the items write, from the first to the last.
    open spec fn script(&self) -> Script {
        sequence(scripts_of::<E, T>(self.items()@))
    }

    open spec fn surfaces(&self, cause: Cause<E::Error>, err: Self::Error) -> bool {
        any_surfaces::<E, T>(self.items()@, cause, err)
    }

    #[inline]
    fn encode(&self, encoder: &mut E) -> (res: Result<(), Self::Error>) {
        let items = self.encodable_iter.as_slice();
        let res = encode_each(items, encoder);
        proof {
            assert(self.script() == sequence(scripts_of::<E, T>(items@)));
        }
        res
    }
}

impl<T, E> Encodable<E> for Iter<Vec<T>> where T: Encodable<E>, E: BaseEncoder {
    type Error = T::Error;

    open spec fn well_formed(&self) -> bool {
        all_well_formed::<E, T>(self.items()@)
    }

    /// What the items write, from the first to the last.
    open spec fn script(&self) -> Script {
        sequence(scripts_of::<E, T>(self.items()@))
    }

    open spec fn surfaces(&self, cause: Cause<E::Error>, err: Self::Error) -> bool {
        any_surfaces::<E, T>(self.items()@, cause, err)
    }

    #[inline]
    fn encode(&self, encoder: &mut E) -> (res: Result<(), Self::Error>) {
        let items = self.encodable_iter.as_slice();
        let res = encode_each(items, encoder);
        proof {
            assert(self.script() == sequence(scripts_of::<E, T>(items@)));
        }
        res
    }
}

} // verus!
