use vstd::prelude::*;

use super::iter::all_well_formed;
use super::iter::scripts_of;
use crate::run::encode_member;
use crate::script::cut_short;
use crate::script::finished;
use crate::script::reached;
use crate::script::sequence;
use crate::BaseEncoder;
use crate::Cause;
use crate::Encodable;
use crate::Script;

verus! {

/// The scripts `items` with `separator` between every two of them that
/// follow each other: none before the first and none behind the last.
pub open spec fn joined(items: Seq<Script>, separator: Script) -> Seq<Script> {
    Seq::new(
        if items.len() == 0 {
            0nat
        } else {
            (2 * items.len() - 1) as nat
        },
        |i: int|
            if i % 2 == 0 {
                items[i / 2]
            } else {
                separator
            },
    )
}

/// The number of the members of a joined sequence that come before the
/// separator in front of item `at`: the items before it and the separators
/// between them.
pub open spec fn members_before(at: int) -> int {
    if at == 0 {
        0
    } else {
        2 * at - 1
    }
}

/// Whether `err` surfaces for `cause` from an item of `items` or from
/// `separator`, at a place that a run over the items and the separators
/// between them gets as far as.
pub open spec fn part_surfaces<E, T, S>(
    items: Seq<T>,
    separator: S,
    cause: Cause<E::Error>,
    err: S::Error,
) -> bool where E: BaseEncoder, T: Encodable<E, Error = S::Error>, S: Encodable<E> {
    ||| exists|i: int|
        0 <= i < items.len() && reached(
            joined(scripts_of::<E, T>(items), separator.script()),
            2 * i,
        ) && (#[trigger] items[i]).surfaces(cause, err)
    ||| exists|place: int|
        0 <= place < joined(scripts_of::<E, T>(items), separator.script()).len() && place % 2 == 1
            && #[trigger] reached(joined(scripts_of::<E, T>(items), separator.script()), place)
            && separator.surfaces(cause, err)
}

/// Writes the items of a sequence one after the other, with a separator
/// between every two of them.
///
/// The sequence is a slice, an array or a vector, held by value or by
/// reference. The items `"hello"`, `"world"` and `"another"` with the
/// separator `", "` are written as `hello, world, another`.
#[derive(Debug, Clone, PartialEq, Eq, PartialOrd, Ord)]
pub struct Separated<I, S> {
    encodable_iter: I,
    separator: S,
}

impl<I, S> Separated<I, S> {
    /// The sequence of the items that are written.
    pub closed spec fn items(self) -> I {
        self.encodable_iter
    }

    /// What is written between two items.
    pub closed spec fn between(self) -> S {
        self.separator
    }

    /// Joins the items of `encodable_iter` with `separator`.
    #[inline]
    pub fn new(encodable_iter: I, separator: S) -> (joined: Self)
        ensures
            joined.items() == encodable_iter,
            joined.between() == separator,
    {
        Self { encodable_iter, separator }
    }

    /// Gives the sequence and the separator back.
    #[inline]
    #[must_use]
    pub fn into_inner(self) -> (parts: (I, S))
        ensures
            parts.0 == self.items(),
            parts.1 == self.between(),
    {
        (self.encodable_iter, self.separator)
    }
}

/// Writes the items of `items` into `encoder`, from the first to the last
/// and with `separator` before each but the first, and stops at the first
/// write that fails.
pub(crate) fn encode_joined<E, T, S>(items: &[T], separator: &S, encoder: &mut E) -> (res: Result<
    (),
    S::Error,
>) where E: BaseEncoder, T: Encodable<E, Error = S::Error>, S: Encodable<E>
    requires
        all_well_formed::<E, T>(items@),
        separator.well_formed(),
    ensures
        match res {
            Ok(()) => finished(
                sequence(joined(scripts_of::<E, T>(items@), separator.script())),
                old(encoder),
                final(encoder),
            ),
            Err(err) => exists|cause: Cause<E::Error>|
                {
                    &&& #[trigger] cut_short(
                        sequence(joined(scripts_of::<E, T>(items@), separator.script())),
                        old(encoder),
                        final(encoder),
                        cause,
                    )
                    &&& part_surfaces::<E, T, S>(items@, *separator, cause, err)
                },
        },
{
    let ghost start = *encoder;
    let ghost scripts = joined(scripts_of::<E, T>(items@), separator.script());
    proof {
        assert(scripts.take(0) =~= Seq::<Script>::empty());
    }
    let mut at: usize = 0;
    while at < items.len()
        invariant
            at <= items.len(),
            all_well_formed::<E, T>(items@),
            separator.well_formed(),
            scripts == joined(scripts_of::<E, T>(items@), separator.script()),
            start == *old(encoder),
            finished(sequence(scripts.take(members_before(at as int))), &start, encoder),
        decreases items.len() - at,
    {
        if at > 0 {
            match encode_member(
                separator,
                encoder,
                Ghost(start),
                Ghost(scripts),
                Ghost(2 * at - 1),
            ) {
                Ok(()) => {},
                Err(err) => {
                    proof {
                        assert(reached(scripts, 2 * at - 1));
                    }
                    return Err(err);
                },
            }
        }
        match encode_member(&items[at], encoder, Ghost(start), Ghost(scripts), Ghost(2 * at)) {
            Ok(()) => {},
            Err(err) => {
                proof {
                    assert(reached(scripts, 2 * at));
                }
                return Err(err);
            },
        }
        at += 1;
    }
    proof {
        assert(scripts.take(members_before(at as int)) =~= scripts);
    }
    Ok(())
}

impl<'a, T, S, E> Encodable<E> for Separated<&'a [T], S> where
    T: Encodable<E, Error = S::Error>,
    S: Encodable<E>,
    E: BaseEncoder,
 {
    type Error = S::Error;

    open spec fn well_formed(&self) -> bool {
        all_well_formed::<E, T>(self.items()@) && self.between().well_formed()
    }

    /// What the items write, from the first to the last, with what the
    /// separator writes between every two of them.
    open spec fn script(&self) -> Script {
        sequence(joined(scripts_of::<E, T>(self.items()@), self.between().script()))
    }

    open spec fn surfaces(&self, cause: Cause<E::Error>, err: Self::Error) -> bool {
        part_surfaces::<E, T, S>(self.items()@, self.between(), cause, err)
    }

    #[inline]
    fn encode(&self, encoder: &mut E) -> (res: Result<(), Self::Error>) {
        let items = self.encodable_iter;
        let res = encode_joined(items, &self.separator, encoder);
        proof {
            assert(self.script() == sequence(
                joined(scripts_of::<E, T>(items@), self.separator.script()),
            ));
        }
        res
    }
}

impl<'a, T, S, E, const N: usize> Encodable<E> for Separated<&'a [T; N], S> where
    T: Encodable<E, Error = S::Error>,
    S: Encodable<E>,
    E: BaseEncoder,
 {
    type Error = S::Error;

    open spec fn well_formed(&self) -> bool {
        all_well_formed::<E, T>(self.items()@) && self.between().well_formed()
    }

    /// What the items write, from the first to the last, with what the
    /// separator writes between every two of them.
    open spec fn script(&self) -> Script {
        sequence(joined(scripts_of::<E, T>(self.items()@), self.between().script()))
    }

    open spec fn surfaces(&self, cause: Cause<E::Error>, err: Self::Error) -> bool {
        part_surfaces::<E, T, S>(self.items()@, self.between(), cause, err)
    }

    #[inline]
    fn encode(&self, encoder: &mut E) -> (res: Result<(), Self::Error>) {
        let items = self.encodable_iter.as_slice();
        let res = encode_joined(items, &self.separator, encoder);
        proof {
            assert(self.script() == sequence(
                joined(scripts_of::<E, T>(items@), self.separator.script()),
            ));
        }
        res
    }
}

impl<T, S, E, const N: usize> Encodable<E> for Separated<[T; N], S> where
    T: Encodable<E, Error = S::Error>,
    S: Encodable<E>,
    E: BaseEncoder,
 {
    type Error = S::Error;

    open spec fn well_formed(&self) -> bool {
        all_well_formed::<E, T>(self.items()@) && self.between().well_formed()
    }

    /// What the items write, from the first to the last, with what the
    /// separator writes between every two of them.
    open spec fn script(&self) -> Script {
        sequence(joined(scripts_of::<E, T>(self.items()@), self.between().script()))
    }

    open spec fn surfaces(&self, cause: Cause<E::Error>, err: Self::Error) -> bool {
        part_surfaces::<E, T, S>(self.items()@, self.between(), cause, err)
    }

    #[inline]
    fn encode(&self, encoder: &mut E) -> (res: Result<(), Self::Error>) {
        let items = self.encodable_iter.as_slice();
        let res = encode_joined(items, &self.separator, encoder);
        proof {
            assert(self.script() == sequence(
                joined(scripts_of::<E, T>(items@), self.separator.script()),
            ));
        }
        res
    }
}

impl<'a, T, S, E> Encodable<E> for Separated<&'a Vec<T>, S> where
    T: Encodable<E, Error = S::Error>,
    S: Encodable<E>,
    E: BaseEncoder,
 {
    type Error = S::Error;

    open spec fn well_formed(&self) -> bool {
        all_well_formed::<E, T>(self.items()@) && self.between().well_formed()
    }

    /// What the items write, from the first to the last, with what the
    /// separator writes between every two of them.
    open spec fn script(&self) -> Script {
        sequence(joined(scripts_of::<E, T>(self.items()@), self.between().script()))
    }

    open spec fn surfaces(&self, cause: Cause<E::Error>, err: Self::Error) -> bool {
        part_surfaces::<E, T, S>(self.items()@, self.between(), cause, err)
    }

    #[inline]
    fn encode(&self, encoder: &mut E) -> (res: Result<(), Self::Error>) {
        let items = self.encodable_iter.as_slice();
        let res = encode_joined(items, &self.separator, encoder);
        proof {
            assert(self.script() == sequence(
                joined(scripts_of::<E, T>(items@), self.separator.script()),
            ));
        }
        res
    }
}

impl<T, S, E> Encodable<E> for Separated<Vec<T>, S> where
    T: Encodable<E, Error = S::Error>,
    S: Encodable<E>,
    E: BaseEncoder,
 {
    type Error = S::Error;

    open spec fn well_formed(&self) -> bool {
        all_well_formed::<E, T>(self.items()@) && self.between().well_formed()
    }

    /// What the items write, from the first to the last, with what the
    /// separator writes between every two of them.
    open spec fn script(&self) -> Script {
        sequence(joined(scripts_of::<E, T>(self.items()@), self.between().script()))
    }

    open spec fn surfaces(&self, cause: Cause<E::Error>, err: Self::Error) -> bool {
        part_surfaces::<E, T, S>(self.items()@, self.between(), cause, err)
    }

    #[inline]
    fn encode(&self, encoder: &mut E) -> (res: Result<(), Self::Error>) {
        let items = self.encodable_iter.as_slice();
        let res = encode_joined(items, &self.separator, encoder);
        proof {
            assert(self.script() == sequence(
                joined(scripts_of::<E, T>(items@), self.separator.script()),
            ));
        }
        res
    }
}

} // verus!
