//! What holds of every value that can be written.
//!
//! The laws are stated over [`ran`], the contract of
//! [`Encodable::encode`]: each premise of that form stands for one call.
use vstd::prelude::*;

use crate::combinators::measured;
use crate::combinators::LengthPrefix;
use crate::encoders::lemma_array_vec_without_room_stopped;
use crate::encoders::lemma_array_vec_without_room_took;
use crate::encoders::lemma_counter_took;
use crate::encoders::lemma_slice_stopped;
use crate::encoders::lemma_slice_took;
use crate::encoders::lemma_vec_took;
use crate::encoders::room;
use crate::encoders::InsufficientSpace;
use crate::encoders::SizeEncoder;
use crate::run::ran;
use crate::script::cut_short;
use crate::script::lemma_sequence_pair;
use crate::script::took;
use crate::BaseEncoder;
use crate::ByteEncoder;
use crate::Cause;
use crate::Encodable;
use crate::Script;

verus! {

/// Whether `value` presents the same script to a counter of bytes and to a
/// vector. Every value has to: the length of its encoded form is found by
/// the writes that produce the form.
pub open spec fn measures_what_it_writes<T: Encodable<SizeEncoder> + Encodable<Vec<u8>>>(
    value: &T,
) -> bool {
    <T as Encodable<SizeEncoder>>::script(value) == <T as Encodable<Vec<u8>>>::script(value)
}

/// A pair measures what it writes where its members do.
pub proof fn lemma_pair_measures_what_it_writes<A, B>(first: A, second: B) where
    A: Encodable<SizeEncoder> + Encodable<Vec<u8>>,
    B: Encodable<SizeEncoder, Error = <A as Encodable<SizeEncoder>>::Error> + Encodable<
        Vec<u8>,
        Error = <A as Encodable<Vec<u8>>>::Error,
    >,

    requires
        measures_what_it_writes(&first),
        measures_what_it_writes(&second),
    ensures
        measures_what_it_writes(&(first, second)),
{
}

/// The size of a value is the number of the bytes that it writes.
///
/// Where a value is written with success into a counter that has counted
/// nothing and into a vector, the counter ends at the number of bytes by
/// which the vector has grown.
pub proof fn lemma_size_is_bytes_written<T: Encodable<SizeEncoder> + Encodable<Vec<u8>>>(
    value: &T,
    counter: SizeEncoder,
    counted_to: SizeEncoder,
    before: Vec<u8>,
    after: Vec<u8>,
)
    requires
        measures_what_it_writes(value),
        counter.counter() == 0,
        ran::<SizeEncoder, T>(value, &counter, &counted_to, Ok(())),
        ran::<Vec<u8>, T>(value, &before, &after, Ok(())),
    ensures
        counted_to.counter() == after@.len() - before@.len(),
        after@ == before@ + <T as Encodable<Vec<u8>>>::script(value).bytes(),
{
    lemma_counter_took(&counter, <T as Encodable<SizeEncoder>>::script(value).chunks, &counted_to);
    lemma_vec_took(&before, <T as Encodable<Vec<u8>>>::script(value).chunks, &after);
    vstd::std_specs::vec::axiom_spec_len(&after);
}

/// Encoding is deterministic.
///
/// Where a value is written twice, into two vectors that hold the same
/// bytes, the two vectors hold the same bytes afterwards and the two calls
/// end alike: both in success, or both in an error of the value.
pub proof fn lemma_encoding_is_deterministic<T: Encodable<Vec<u8>>>(
    value: &T,
    first: Vec<u8>,
    first_after: Vec<u8>,
    first_res: Result<(), T::Error>,
    second: Vec<u8>,
    second_after: Vec<u8>,
    second_res: Result<(), T::Error>,
)
    requires
        first@ == second@,
        ran::<Vec<u8>, T>(value, &first, &first_after, first_res),
        ran::<Vec<u8>, T>(value, &second, &second_after, second_res),
    ensures
        first_after@ == second_after@,
        first_after@ == first@ + value.script().bytes(),
        first_res is Ok <==> second_res is Ok,
        first_res is Ok <==> value.script().complete,
{
    lemma_vec_ran(value, first, first_after, first_res);
    lemma_vec_ran(value, second, second_after, second_res);
}

/// Whether what `observe` sees of a destination of type `E` after a write
/// that it took is a function of what `observe` saw before and of the bytes
/// written.
pub open spec fn takes_alike<E: BaseEncoder, V>(observe: spec_fn(E) -> V) -> bool {
    forall|first: E, first_after: E, second: E, second_after: E, bytes: Seq<u8>|
        observe(first) == observe(second) && #[trigger] first.accepts(bytes, &first_after)
            && #[trigger] second.accepts(bytes, &second_after) ==> observe(first_after)
            == observe(second_after)
}

/// Encoding is deterministic for every destination that takes alike.
///
/// Where a value is written with success into two destinations of which
/// the same is observed, the same is observed of the two afterwards.
pub proof fn lemma_encoding_is_deterministic_for<E: BaseEncoder, T: Encodable<E>, V>(
    observe: spec_fn(E) -> V,
    value: &T,
    first: E,
    first_after: E,
    second: E,
    second_after: E,
)
    requires
        takes_alike::<E, V>(observe),
        observe(first) == observe(second),
        ran::<E, T>(value, &first, &first_after, Ok(())),
        ran::<E, T>(value, &second, &second_after, Ok(())),
    ensures
        observe(first_after) == observe(second_after),
{
    lemma_runs_alike(observe, value.script().chunks, first, first_after, second, second_after);
}

/// Two runs of the same chunks that start alike end alike.
proof fn lemma_runs_alike<E: BaseEncoder, V>(
    observe: spec_fn(E) -> V,
    chunks: Seq<Seq<u8>>,
    first: E,
    first_after: E,
    second: E,
    second_after: E,
)
    requires
        takes_alike::<E, V>(observe),
        observe(first) == observe(second),
        took(&first, chunks, &first_after),
        took(&second, chunks, &second_after),
    ensures
        observe(first_after) == observe(second_after),
    decreases chunks.len(),
{
    if chunks.len() > 0 {
        let first_mid = choose|mid: E|
            took(&first, chunks.drop_last(), &mid) && #[trigger] mid.accepts(
                chunks.last(),
                &first_after,
            );
        let second_mid = choose|mid: E|
            took(&second, chunks.drop_last(), &mid) && #[trigger] mid.accepts(
                chunks.last(),
                &second_after,
            );
        lemma_runs_alike(observe, chunks.drop_last(), first, first_mid, second, second_mid);
    }
}

/// A vector takes all that a value hands to it: the call ends in success
/// exactly if the value has a representation, and in either case the vector
/// has grown by the bytes of the value's script.
pub proof fn lemma_vec_ran<T: Encodable<Vec<u8>>>(
    value: &T,
    before: Vec<u8>,
    after: Vec<u8>,
    res: Result<(), T::Error>,
)
    requires
        ran::<Vec<u8>, T>(value, &before, &after, res),
    ensures
        after@ == before@ + value.script().bytes(),
        res is Ok <==> value.script().complete,
        res matches Err(err) ==> value.surfaces(Cause::Value, err),
{
    if let Err(err) = res {
        let cause = choose|cause: Cause<core::convert::Infallible>| #[trigger]
            cut_short(value.script(), &before, &after, cause) && value.surfaces(cause, err);
        assert(cause is Value);
    }
    lemma_vec_took(&before, value.script().chunks, &after);
}

/// Writing into a slice without room fails at once.
///
/// Where a value that has a representation of at least one byte is written
/// into a slice of no bytes, the call ends in the error of the slice and
/// the slice is still one of no bytes.
pub proof fn lemma_slice_without_room_fails<'a, T: Encodable<&'a mut [u8]>>(
    value: &T,
    before: &&'a mut [u8],
    after: &&'a mut [u8],
    res: Result<(), T::Error>,
)
    requires
        room(before) == 0,
        value.script().complete,
        value.script().bytes().len() > 0,
        ran::<&'a mut [u8], T>(value, before, after, res),
    ensures
        res matches Err(err) && value.surfaces(Cause::Destination(InsufficientSpace), err),
        room(after) == 0,
{
    match res {
        Ok(()) => {
            lemma_slice_took(before, value.script().chunks, after);
        },
        Err(err) => {
            let cause = choose|cause: Cause<InsufficientSpace>| #[trigger]
                cut_short(value.script(), before, after, cause) && value.surfaces(cause, err);
            match cause {
                Cause::Value => {},
                Cause::Destination(refusal) => {
                    lemma_slice_stopped(before, value.script().chunks, after, refusal);
                },
            }
        },
    }
}

/// Writing into a vector without capacity fails at once.
///
/// Where a value that has a representation of at least one byte is written
/// into a vector of capacity zero, the call ends in the error of the
/// vector and the vector is as it was.
pub proof fn lemma_array_vec_without_room_fails<T: Encodable<arrayvec::ArrayVec<u8, 0>>>(
    value: &T,
    before: arrayvec::ArrayVec<u8, 0>,
    after: arrayvec::ArrayVec<u8, 0>,
    res: Result<(), T::Error>,
)
    requires
        value.script().complete,
        value.script().bytes().len() > 0,
        ran::<arrayvec::ArrayVec<u8, 0>, T>(value, &before, &after, res),
    ensures
        res matches Err(err) && value.surfaces(Cause::Destination(InsufficientSpace), err),
        after == before,
{
    match res {
        Ok(()) => {
            lemma_array_vec_without_room_took(&before, value.script().chunks, &after);
        },
        Err(err) => {
            let cause = choose|cause: Cause<InsufficientSpace>| #[trigger]
                cut_short(value.script(), &before, &after, cause) && value.surfaces(cause, err);
            match cause {
                Cause::Value => {},
                Cause::Destination(refusal) => {
                    lemma_array_vec_without_room_stopped(
                        &before,
                        value.script().chunks,
                        &after,
                        refusal,
                    );
                },
            }
        },
    }
}

/// A pair writes its first member and then its second.
///
/// The script of a pair is the script of the first member followed by the
/// script of the second, and where the first member has a representation,
/// the bytes of the pair are the bytes of the first followed by the bytes
/// of the second.
pub proof fn lemma_pair_writes_in_order<E: BaseEncoder, A: Encodable<E>, B: Encodable<
    E,
    Error = A::Error,
>>(first: A, second: B)
    ensures
        (first, second).script() == first.script().followed_by(second.script()),
        first.script().complete ==> (first, second).script().bytes() == first.script().bytes()
            + second.script().bytes(),
{
    lemma_sequence_pair(first.script(), second.script());
    if first.script().complete {
        first.script().lemma_bytes_followed_by(second.script());
    }
}

/// A length of one byte stands before the value that it counts.
///
/// Where a value has a representation of at most 255 bytes, its wrapper
/// with a length of type `u8` writes the number of those bytes as one byte
/// and then what the value writes.
pub proof fn lemma_byte_length_stands_first<E, T, Error>(value: T) where
    E: ByteEncoder,
    T: Encodable<E> + Encodable<SizeEncoder>,
    Error: From<E::Error> + From<core::num::TryFromIntError> + From<<T as Encodable<E>>::Error>
        + From<<T as Encodable<SizeEncoder>>::Error>,

    requires
        <T as Encodable<SizeEncoder>>::script(&value).complete,
        <T as Encodable<SizeEncoder>>::script(&value).bytes().len() <= 255,
    ensures
        <LengthPrefix<T, u8, Error> as Encodable<E>>::script(&LengthPrefix::holding(value))
            == Script::one(seq![measured(value) as u8]).followed_by(
            <T as Encodable<E>>::script(&value),
        ),
        <LengthPrefix<T, u8, Error> as Encodable<E>>::script(
            &LengthPrefix::holding(value),
        ).bytes() == seq![<T as Encodable<SizeEncoder>>::script(&value).bytes().len() as u8]
            + <T as Encodable<E>>::script(&value).bytes(),
{
    LengthPrefix::<T, u8, Error>::lemma_holding(value);
    let length = seq![measured(value) as u8];
    Script::lemma_bytes_one(length);
    Script::one(length).lemma_bytes_followed_by(<T as Encodable<E>>::script(&value));
}

/// An option that holds nothing writes nothing and does not fail.
pub proof fn lemma_none_writes_nothing<E: BaseEncoder, T: Encodable<E>>(
    before: E,
    after: E,
    res: Result<(), T::Error>,
)
    requires
        ran::<E, Option<T>>(&None, &before, &after, res),
    ensures
        res is Ok,
        after == before,
{
    if let Err(err) = res {
        let cause = choose|cause: Cause<E::Error>| #[trigger]
            cut_short(None::<T>.script(), &before, &after, cause) && None::<T>.surfaces(
                cause,
                err,
            );
    }
}

/// An option that holds a value is written exactly as the value is.
pub proof fn lemma_some_writes_its_value<E: BaseEncoder, T: Encodable<E>>(
    value: T,
    before: E,
    after: E,
    res: Result<(), T::Error>,
)
    ensures
        ran::<E, Option<T>>(&Some(value), &before, &after, res) <==> ran::<E, T>(
            &value,
            &before,
            &after,
            res,
        ),
{
    let some = Some(value);
    assert(some.script() == value.script());
    if let Err(err) = res {
        if ran::<E, Option<T>>(&some, &before, &after, res) {
            let cause = choose|cause: Cause<E::Error>| #[trigger]
                cut_short(some.script(), &before, &after, cause) && some.surfaces(cause, err);
            assert(cut_short(value.script(), &before, &after, cause));
        }
        if ran::<E, T>(&value, &before, &after, res) {
            let cause = choose|cause: Cause<E::Error>| #[trigger]
                cut_short(value.script(), &before, &after, cause) && value.surfaces(cause, err);
            assert(cut_short(some.script(), &before, &after, cause));
        }
    }
}

/// A result that holds a value is written exactly as the value is.
pub proof fn lemma_ok_writes_its_value<E: BaseEncoder, T: Encodable<E>>(
    value: T,
    before: E,
    after: E,
    res: Result<(), T::Error>,
) where T::Error: Clone
    ensures
        ran::<E, Result<T, T::Error>>(&Ok(value), &before, &after, res) <==> ran::<E, T>(
            &value,
            &before,
            &after,
            res,
        ),
{
    let kept = Ok::<T, T::Error>(value);
    assert(kept.script() == value.script());
    if let Err(err) = res {
        if ran::<E, Result<T, T::Error>>(&kept, &before, &after, res) {
            let cause = choose|cause: Cause<E::Error>| #[trigger]
                cut_short(kept.script(), &before, &after, cause) && kept.surfaces(cause, err);
            assert(cut_short(value.script(), &before, &after, cause));
        }
        if ran::<E, T>(&value, &before, &after, res) {
            let cause = choose|cause: Cause<E::Error>| #[trigger]
                cut_short(value.script(), &before, &after, cause) && value.surfaces(cause, err);
            assert(cut_short(kept.script(), &before, &after, cause));
        }
    }
}

/// A result that holds an error writes nothing and fails with that error,
/// as its clone.
pub proof fn lemma_stored_failure_comes_back<E: BaseEncoder, T: Encodable<E>>(
    stored: T::Error,
    before: E,
    after: E,
    res: Result<(), T::Error>,
) where T::Error: Clone
    requires
        ran::<E, Result<T, T::Error>>(&Err(stored), &before, &after, res),
    ensures
        res matches Err(err) && cloned(stored, err),
        after == before,
{
    let failed = Err::<T, T::Error>(stored);
    if let Err(err) = res {
        let cause = choose|cause: Cause<E::Error>| #[trigger]
            cut_short(failed.script(), &before, &after, cause) && failed.surfaces(cause, err);
        assert(cause is Value);
    }
}

} // verus!
