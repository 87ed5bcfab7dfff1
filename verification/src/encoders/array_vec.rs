use vstd::prelude::*;
use vstd::string::StringSliceAdditionalSpecFns;

use super::InsufficientSpace;
use crate::script::stopped;
use crate::script::took;
use crate::BaseEncoder;
use crate::ByteEncoder;
use crate::StrEncoder;

verus! {

/// `ArrayVec` of `arrayvec`: a vector of at most `CAP` items. Nothing is
/// known of what is inside it.
#[verifier::external_type_specification]
#[verifier::external_body]
#[verifier::reject_recursive_types(T)]
pub struct ExArrayVec<T, const CAP: usize>(arrayvec::ArrayVec<T, CAP>);

/// `ArrayString` of `arrayvec`: a string of at most `CAP` bytes. Nothing
/// is known of what is inside it.
#[verifier::external_type_specification]
#[verifier::external_body]
pub struct ExArrayString<const CAP: usize>(arrayvec::ArrayString<CAP>);

/// `ArrayVec::try_extend_from_slice` of `arrayvec`, with its error mapped.
///
/// The call fails when `slice` is longer than the room that is left, and
/// then it returns before it touches the vector. So a slice that was taken
/// is no longer than the capacity, and a slice that was refused is not
/// empty. An empty slice that was taken has added nothing: the vector is as
/// it was.
#[verifier::external_body]
fn try_extend<const CAP: usize>(vector: &mut arrayvec::ArrayVec<u8, CAP>, slice: &[u8]) -> (res:
    Result<(), InsufficientSpace>)
    ensures
        res is Ok ==> slice@.len() <= CAP,
        res is Ok && slice@.len() == 0 ==> *final(vector) == *old(vector),
        res is Err ==> slice@.len() > 0 && *final(vector) == *old(vector),
{
    vector.try_extend_from_slice(slice).map_err(|_| InsufficientSpace)
}

/// `ArrayVec::try_push` of `arrayvec`, with its error mapped.
///
/// The call fails when the vector is full, and then it leaves the vector as
/// it is. So a byte that was taken shows that the capacity is not zero.
#[verifier::external_body]
fn try_push<const CAP: usize>(vector: &mut arrayvec::ArrayVec<u8, CAP>, byte: u8) -> (res: Result<
    (),
    InsufficientSpace,
>)
    ensures
        res is Ok ==> 1 <= CAP,
        res is Err ==> *final(vector) == *old(vector),
{
    vector.try_push(byte).map_err(|_| InsufficientSpace)
}

/// `ArrayString::try_push_str` of `arrayvec`, with its error mapped.
///
/// The call fails when the UTF-8 form of `string` is longer than the room
/// that is left, and then it returns before it touches the string. An empty
/// `string` that was taken has added nothing: the string is as it was.
#[verifier::external_body]
fn try_push_str<const CAP: usize>(text: &mut arrayvec::ArrayString<CAP>, string: &str) -> (res:
    Result<(), InsufficientSpace>)
    ensures
        res is Ok ==> string.spec_bytes().len() <= CAP,
        res is Ok && string.spec_bytes().len() == 0 ==> *final(text) == *old(text),
        res is Err ==> string.spec_bytes().len() > 0 && *final(text) == *old(text),
{
    text.try_push_str(string).map_err(|_| InsufficientSpace)
}

impl<const SIZE: usize> BaseEncoder for arrayvec::ArrayVec<u8, SIZE> {
    type Error = InsufficientSpace;

    /// A vector of fixed capacity takes no write that is longer than its
    /// capacity, and an empty write that it takes leaves it as it was.
    open spec fn accepts(&self, bytes: Seq<u8>, post: &Self) -> bool {
        bytes.len() <= SIZE && (bytes.len() == 0 ==> *post == *self)
    }

    /// A vector of fixed capacity refuses no empty write, and a write that
    /// it refuses leaves it as it was.
    open spec fn rejects(&self, bytes: Seq<u8>, post: &Self, err: Self::Error) -> bool {
        bytes.len() > 0 && *post == *self
    }
}

impl<const SIZE: usize> ByteEncoder for arrayvec::ArrayVec<u8, SIZE> {
    #[inline]
    fn put_slice(&mut self, slice: &[u8]) -> (res: Result<(), Self::Error>) {
        try_extend(self, slice)
    }

    #[inline]
    fn put_byte(&mut self, byte: u8) -> (res: Result<(), Self::Error>) {
        try_push(self, byte)
    }
}

impl<const SIZE: usize> BaseEncoder for arrayvec::ArrayString<SIZE> {
    type Error = InsufficientSpace;

    /// A string of fixed capacity takes no write that is longer than its
    /// capacity, and an empty write that it takes leaves it as it was.
    open spec fn accepts(&self, bytes: Seq<u8>, post: &Self) -> bool {
        bytes.len() <= SIZE && (bytes.len() == 0 ==> *post == *self)
    }

    /// A string of fixed capacity refuses no empty write, and a write that
    /// it refuses leaves it as it was.
    open spec fn rejects(&self, bytes: Seq<u8>, post: &Self, err: Self::Error) -> bool {
        bytes.len() > 0 && *post == *self
    }
}

impl<const SIZE: usize> StrEncoder for arrayvec::ArrayString<SIZE> {
    #[inline]
    fn put_str(&mut self, string: &str) -> (res: Result<(), Self::Error>) {
        try_push_str(self, string)
    }
}

/// A vector without capacity that took a run of chunks was handed no byte
/// and is as it was.
pub proof fn lemma_array_vec_without_room_took(
    pre: &arrayvec::ArrayVec<u8, 0>,
    chunks: Seq<Seq<u8>>,
    post: &arrayvec::ArrayVec<u8, 0>,
)
    requires
        took(pre, chunks, post),
    ensures
        chunks.flatten().len() == 0,
        *post == *pre,
    decreases chunks.len(),
{
    if chunks.len() == 0 {
        assert(chunks.flatten() =~= Seq::<u8>::empty());
    } else {
        let mid = choose|mid: arrayvec::ArrayVec<u8, 0>|
            took(pre, chunks.drop_last(), &mid) && #[trigger] mid.accepts(chunks.last(), post);
        lemma_array_vec_without_room_took(pre, chunks.drop_last(), &mid);
        chunks.lemma_flatten_and_flatten_alt_are_equivalent();
        chunks.drop_last().lemma_flatten_and_flatten_alt_are_equivalent();
        assert(chunks.flatten_alt() == chunks.drop_last().flatten_alt() + chunks.last());
    }
}

/// A vector without capacity that stopped a run is as it was.
pub proof fn lemma_array_vec_without_room_stopped(
    pre: &arrayvec::ArrayVec<u8, 0>,
    chunks: Seq<Seq<u8>>,
    post: &arrayvec::ArrayVec<u8, 0>,
    err: InsufficientSpace,
)
    requires
        stopped(pre, chunks, post, err),
    ensures
        *post == *pre,
{
    let (k, mid) = choose|k: int, mid: arrayvec::ArrayVec<u8, 0>|
        0 <= k < chunks.len() && #[trigger] took(pre, chunks.take(k), &mid) && mid.rejects(
            chunks[k],
            post,
            err,
        );
    lemma_array_vec_without_room_took(pre, chunks.take(k), &mid);
}

} // verus!
