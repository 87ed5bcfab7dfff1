use vstd::prelude::*;

use super::InsufficientSpace;
use crate::script::stopped;
use crate::script::took;
use crate::BaseEncoder;
use crate::ByteEncoder;

verus! {

impl<'a> BaseEncoder for &'a mut [u8] {
    type Error = InsufficientSpace;

    /// A slice takes a write that fits into it, and what is left of the
    /// slice is the part behind the bytes written.
    open spec fn accepts(&self, bytes: Seq<u8>, post: &Self) -> bool {
        &&& bytes.len() <= self@.len()
        &&& post@.len() == self@.len() - bytes.len()
    }

    /// A slice refuses a write that does not fit into it, and nothing is
    /// left of the slice afterwards.
    open spec fn rejects(&self, bytes: Seq<u8>, post: &Self, err: Self::Error) -> bool {
        &&& bytes.len() > self@.len()
        &&& post@.len() == 0
    }
}

impl<'a> ByteEncoder for &'a mut [u8] {
    /// Copies `slice` to the start of the destination and moves the
    /// destination on to the part behind it.
    ///
    /// What the memory of the destination holds in the end is the bytes
    /// written followed by what the memory behind them holds in the end.
    #[inline]
    fn put_slice(&mut self, slice: &[u8]) -> (res: Result<(), Self::Error>)
        ensures
            res is Ok <==> slice@.len() <= old(self)@.len(),
            res is Ok ==> final(*old(self))@ == slice@ + final(*final(self))@,
            res is Ok ==> final(self)@ == old(self)@.subrange(
                slice@.len() as int,
                old(self)@.len() as int,
            ),
    {
        let mut buffer: &'a mut [u8] = &mut [];
        core::mem::swap(self, &mut buffer);
        if slice.len() > buffer.len() {
            return Err(InsufficientSpace);
        }
        let (head, tail) = buffer.split_at_mut(slice.len());
        let mut at: usize = 0;
        while at < slice.len()
            invariant
                at <= slice.len(),
                head@.len() == slice@.len(),
                forall|i: int| 0 <= i < at ==> head@[i] == slice@[i],
            decreases slice.len() - at,
        {
            head[at] = slice[at];
            at += 1;
        }
        assert(head@ =~= slice@);
        *self = tail;
        Ok(())
    }

    #[inline]
    fn put_byte(&mut self, byte: u8) -> (res: Result<(), Self::Error>)
        ensures
            res is Ok <==> old(self)@.len() > 0,
            res is Ok ==> final(*old(self))@ == seq![byte] + final(*final(self))@,
    {
        self.put_slice(&[byte])
    }
}

/// The number of bytes for which the slice has room.
pub open spec fn room<'a>(slice: &&'a mut [u8]) -> nat {
    slice@.len()
}

/// A slice that took a run of chunks had room for all their bytes, and
/// what is left of it is shorter by their number.
pub proof fn lemma_slice_took<'a>(pre: &&'a mut [u8], chunks: Seq<Seq<u8>>, post: &&'a mut [u8])
    requires
        took(pre, chunks, post),
    ensures
        chunks.flatten().len() <= room(pre),
        room(post) == room(pre) - chunks.flatten().len(),
    decreases chunks.len(),
{
    if chunks.len() == 0 {
        assert(chunks.flatten() =~= Seq::<u8>::empty());
    } else {
        let mid = choose|mid: &'a mut [u8]|
            took(pre, chunks.drop_last(), &mid) && #[trigger] mid.accepts(chunks.last(), post);
        lemma_slice_took(pre, chunks.drop_last(), &mid);
        chunks.lemma_flatten_and_flatten_alt_are_equivalent();
        chunks.drop_last().lemma_flatten_and_flatten_alt_are_equivalent();
        assert(chunks.flatten_alt() == chunks.drop_last().flatten_alt() + chunks.last());
    }
}

/// A slice that stopped a run had no room for all the bytes of the chunks,
/// and nothing is left of it.
pub proof fn lemma_slice_stopped<'a>(
    pre: &&'a mut [u8],
    chunks: Seq<Seq<u8>>,
    post: &&'a mut [u8],
    err: InsufficientSpace,
)
    requires
        stopped(pre, chunks, post, err),
    ensures
        chunks.flatten().len() > room(pre),
        room(post) == 0,
{
    let (k, mid) = choose|k: int, mid: &'a mut [u8]|
        0 <= k < chunks.len() && #[trigger] took(pre, chunks.take(k), &mid) && mid.rejects(
            chunks[k],
            post,
            err,
        );
    lemma_slice_took(pre, chunks.take(k), &mid);
    assert(chunks =~= chunks.take(k) + seq![chunks[k]] + chunks.skip(k + 1));
    crate::script::lemma_flatten_concat(chunks.take(k) + seq![chunks[k]], chunks.skip(k + 1));
    crate::script::lemma_flatten_concat(chunks.take(k), seq![chunks[k]]);
    seq![chunks[k]].lemma_flatten_one_element();
}

} // verus!
