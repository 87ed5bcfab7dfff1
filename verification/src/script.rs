//! The mathematical model of an encoding run.
//!
//! A value denotes a [`Script`]: the chunks of bytes that it hands to a
//! destination, one per write and in order, and whether it has a
//! representation at all. A destination is a state machine over its own
//! states, given by the two relations of [`BaseEncoder`]. Running a script
//! against a destination is described by [`took`] and [`stopped`].
use vstd::prelude::*;

use crate::BaseEncoder;

verus! {

/// What a value asks of a destination.
pub struct Script {
    /// The chunks of bytes handed over, one per write, in the order of the
    /// writes.
    pub chunks: Seq<Seq<u8>>,
    /// Whether the value has a representation. When this is `false` the
    /// value fails by itself once `chunks` have been handed over.
    pub complete: bool,
}

/// Why an encoding run ended in an error.
pub enum Cause<D> {
    /// The value has no representation and failed by itself.
    Value,
    /// The destination refused a write with the given error.
    Destination(D),
}

impl Script {
    /// The script of a value that writes nothing.
    pub open spec fn empty() -> Script {
        Script { chunks: Seq::empty(), complete: true }
    }

    /// The script of a value that fails by itself before it writes anything.
    pub open spec fn failed() -> Script {
        Script { chunks: Seq::empty(), complete: false }
    }

    /// The script of a value that hands over `bytes` in a single write.
    pub open spec fn one(bytes: Seq<u8>) -> Script {
        Script { chunks: seq![bytes], complete: true }
    }

    /// This script followed by `next`. Nothing follows a script that fails.
    pub open spec fn followed_by(self, next: Script) -> Script {
        if self.complete {
            Script { chunks: self.chunks + next.chunks, complete: next.complete }
        } else {
            self
        }
    }

    /// All the bytes of the script, in order.
    pub open spec fn bytes(self) -> Seq<u8> {
        self.chunks.flatten()
    }

    /// Following the empty script first changes nothing.
    pub proof fn lemma_followed_by_empty_left(self)
        ensures
            Script::empty().followed_by(self) == self,
    {
        assert(Seq::<Seq<u8>>::empty() + self.chunks =~= self.chunks);
    }

    /// Following the empty script afterwards changes nothing.
    pub proof fn lemma_followed_by_empty_right(self)
        ensures
            self.followed_by(Script::empty()) == self,
    {
        assert(self.chunks + Seq::<Seq<u8>>::empty() =~= self.chunks);
    }

    /// Sequencing is associative.
    pub proof fn lemma_followed_by_assoc(self, b: Script, c: Script)
        ensures
            self.followed_by(b).followed_by(c) == self.followed_by(b.followed_by(c)),
    {
        assert((self.chunks + b.chunks) + c.chunks =~= self.chunks + (b.chunks + c.chunks));
    }

    /// The bytes of a single write are the bytes written.
    pub proof fn lemma_bytes_one(bytes: Seq<u8>)
        ensures
            Script::one(bytes).bytes() == bytes,
    {
        seq![bytes].lemma_flatten_one_element();
    }

    /// The bytes of two scripts in sequence are the bytes of the first
    /// followed by those of the second, where the first does not fail.
    pub proof fn lemma_bytes_followed_by(self, next: Script)
        requires
            self.complete,
        ensures
            self.followed_by(next).bytes() == self.bytes() + next.bytes(),
    {
        lemma_flatten_concat(self.chunks, next.chunks);
    }
}

/// The scripts of `scripts` in sequence, from the first to the last.
pub open spec fn sequence(scripts: Seq<Script>) -> Script
    decreases scripts.len(),
{
    if scripts.len() == 0 {
        Script::empty()
    } else {
        sequence(scripts.drop_last()).followed_by(scripts.last())
    }
}

/// Whether a run over `scripts` gets as far as member `k`: no member before
/// it fails by itself.
pub open spec fn reached(scripts: Seq<Script>, k: int) -> bool {
    sequence(scripts.take(k)).complete
}

/// A sequence of scripts is its first `k` in sequence followed by the rest
/// in sequence.
pub proof fn lemma_sequence_split(scripts: Seq<Script>, k: int)
    requires
        0 <= k <= scripts.len(),
    ensures
        sequence(scripts) == sequence(scripts.take(k)).followed_by(sequence(scripts.skip(k))),
    decreases scripts.len() - k,
{
    if k == scripts.len() {
        assert(scripts.take(k) =~= scripts);
        assert(scripts.skip(k) =~= Seq::<Script>::empty());
        sequence(scripts).lemma_followed_by_empty_right();
    } else {
        let front = scripts.drop_last();
        lemma_sequence_split(front, k);
        assert(front.take(k) =~= scripts.take(k));
        assert(scripts.skip(k).drop_last() =~= front.skip(k));
        assert(scripts.skip(k).last() == scripts.last());
        sequence(scripts.take(k)).lemma_followed_by_assoc(sequence(front.skip(k)), scripts.last());
    }
}

/// The first `k + 1` scripts in sequence are the first `k` in sequence
/// followed by the next one.
pub proof fn lemma_sequence_next(scripts: Seq<Script>, k: int)
    requires
        0 <= k < scripts.len(),
    ensures
        sequence(scripts.take(k + 1)) == sequence(scripts.take(k)).followed_by(scripts[k]),
{
    let part = scripts.take(k + 1);
    assert(part.drop_last() =~= scripts.take(k));
    assert(part.last() == scripts[k]);
}

/// A sequence of one script is that script.
pub proof fn lemma_sequence_one(script: Script)
    ensures
        sequence(seq![script]) == script,
{
    let scripts = seq![script];
    assert(scripts.drop_last() =~= Seq::<Script>::empty());
    assert(sequence(scripts.drop_last()) == Script::empty());
    assert(scripts.last() == script);
    script.lemma_followed_by_empty_left();
}

/// A sequence of two scripts is the first followed by the second.
pub proof fn lemma_sequence_pair(first: Script, second: Script)
    ensures
        sequence(seq![first, second]) == first.followed_by(second),
{
    let scripts = seq![first, second];
    assert(scripts.drop_last() =~= seq![first]);
    assert(scripts.last() == second);
    lemma_sequence_one(first);
}

/// Flattening distributes over concatenation.
pub proof fn lemma_flatten_concat(a: Seq<Seq<u8>>, b: Seq<Seq<u8>>)
    ensures
        (a + b).flatten() == a.flatten() + b.flatten(),
    decreases a.len(),
{
    if a.len() == 0 {
        assert(a + b =~= b);
        assert(a.flatten() =~= Seq::<u8>::empty());
        assert(a.flatten() + b.flatten() =~= b.flatten());
    } else {
        assert((a + b).drop_first() =~= a.drop_first() + b);
        assert((a + b).first() == a.first());
        lemma_flatten_concat(a.drop_first(), b);
        assert((a + b).flatten() =~= a.first() + (a.drop_first() + b).flatten());
        assert(a.flatten() =~= a.first() + a.drop_first().flatten());
        assert(a.first() + (a.drop_first().flatten() + b.flatten()) =~= (a.first()
            + a.drop_first().flatten()) + b.flatten());
    }
}

/// Whether a destination that starts in `pre` and is handed `chunks`, one
/// write each and in order, may take all of them and end in `post`.
pub open spec fn took<E: BaseEncoder>(pre: &E, chunks: Seq<Seq<u8>>, post: &E) -> bool
    decreases chunks.len(),
{
    if chunks.len() == 0 {
        *post == *pre
    } else {
        exists|mid: E|
            took(pre, chunks.drop_last(), &mid) && #[trigger] mid.accepts(chunks.last(), post)
    }
}

/// Whether a destination that starts in `pre` and is handed `chunks`, one
/// write each and in order, may take some of them, refuse the next one with
/// `err`, and be left in `post`.
pub open spec fn stopped<E: BaseEncoder>(
    pre: &E,
    chunks: Seq<Seq<u8>>,
    post: &E,
    err: E::Error,
) -> bool {
    exists|k: int, mid: E|
        0 <= k < chunks.len() && #[trigger] took(pre, chunks.take(k), &mid) && mid.rejects(
            chunks[k],
            post,
            err,
        )
}

/// Whether a destination that starts in `pre` may follow `script` to its
/// end and be left in `post`: the script is complete and every chunk of it
/// was taken.
pub open spec fn finished<E: BaseEncoder>(script: Script, pre: &E, post: &E) -> bool {
    script.complete && took(pre, script.chunks, post)
}

/// Whether a destination that starts in `pre` may follow `script` until the
/// run is cut short for `cause`, and be left in `post`.
///
/// The value is the cause when every chunk was taken and the script is not
/// complete. The destination is the cause when it refused a chunk after it
/// took those before it.
pub open spec fn cut_short<E: BaseEncoder>(
    script: Script,
    pre: &E,
    post: &E,
    cause: Cause<E::Error>,
) -> bool {
    match cause {
        Cause::Value => !script.complete && took(pre, script.chunks, post),
        Cause::Destination(err) => stopped(pre, script.chunks, post, err),
    }
}

/// Whether a single write of `bytes` may take a destination from `pre` to
/// `post` and end in `res`.
pub open spec fn wrote<E: BaseEncoder + ?Sized>(
    pre: &E,
    bytes: Seq<u8>,
    post: &E,
    res: Result<(), E::Error>,
) -> bool {
    match res {
        Ok(()) => pre.accepts(bytes, post),
        Err(err) => pre.rejects(bytes, post, err),
    }
}

/// One accepted write is a run of one chunk.
pub proof fn lemma_took_one<E: BaseEncoder>(pre: &E, bytes: Seq<u8>, post: &E)
    requires
        pre.accepts(bytes, post),
    ensures
        took(pre, seq![bytes], post),
{
    let chunks = seq![bytes];
    assert(chunks.drop_last() =~= Seq::<Seq<u8>>::empty());
    assert(took(pre, chunks.drop_last(), pre));
    assert(chunks.last() == bytes);
}

/// One refused write is a run that stops at its only chunk.
pub proof fn lemma_stopped_one<E: BaseEncoder>(pre: &E, bytes: Seq<u8>, post: &E, err: E::Error)
    requires
        pre.rejects(bytes, post, err),
    ensures
        stopped(pre, seq![bytes], post, err),
{
    let chunks = seq![bytes];
    assert(chunks.take(0) =~= Seq::<Seq<u8>>::empty());
    assert(took(pre, chunks.take(0), pre));
}

/// A single write is a run of one chunk: taken when the write was taken,
/// stopped when the write was refused.
pub proof fn lemma_wrote_one<E: BaseEncoder>(
    pre: &E,
    bytes: Seq<u8>,
    post: &E,
    res: Result<(), E::Error>,
)
    requires
        wrote(pre, bytes, post, res),
    ensures
        res is Ok ==> finished(Script::one(bytes), pre, post),
        res matches Err(err) ==> cut_short(Script::one(bytes), pre, post, Cause::Destination(err)),
{
    match res {
        Ok(()) => lemma_took_one(pre, bytes, post),
        Err(err) => lemma_stopped_one(pre, bytes, post, err),
    }
}

/// Two runs, the second starting where the first ended, are one run.
pub proof fn lemma_took_concat<E: BaseEncoder>(
    pre: &E,
    first: Seq<Seq<u8>>,
    mid: &E,
    second: Seq<Seq<u8>>,
    post: &E,
)
    requires
        took(pre, first, mid),
        took(mid, second, post),
    ensures
        took(pre, first + second, post),
    decreases second.len(),
{
    if second.len() == 0 {
        assert(first + second =~= first);
    } else {
        let before = choose|before: E|
            took(mid, second.drop_last(), &before) && #[trigger] before.accepts(
                second.last(),
                post,
            );
        lemma_took_concat(pre, first, mid, second.drop_last(), &before);
        assert((first + second).drop_last() =~= first + second.drop_last());
        assert((first + second).last() == second.last());
    }
}

/// A run that stops keeps stopping at the same place when more chunks
/// are put behind it.
pub proof fn lemma_stopped_extend<E: BaseEncoder>(
    pre: &E,
    chunks: Seq<Seq<u8>>,
    more: Seq<Seq<u8>>,
    post: &E,
    err: E::Error,
)
    requires
        stopped(pre, chunks, post, err),
    ensures
        stopped(pre, chunks + more, post, err),
{
    let (k, mid) = choose|k: int, mid: E|
        0 <= k < chunks.len() && #[trigger] took(pre, chunks.take(k), &mid) && mid.rejects(
            chunks[k],
            post,
            err,
        );
    let all = chunks + more;
    assert(all.take(k) =~= chunks.take(k));
    assert(all[k] == chunks[k]);
}

/// A run that stops, after a run that was taken, is a run that stops.
pub proof fn lemma_stopped_after<E: BaseEncoder>(
    pre: &E,
    first: Seq<Seq<u8>>,
    mid: &E,
    second: Seq<Seq<u8>>,
    post: &E,
    err: E::Error,
)
    requires
        took(pre, first, mid),
        stopped(mid, second, post, err),
    ensures
        stopped(pre, first + second, post, err),
{
    let (k, before) = choose|k: int, before: E|
        0 <= k < second.len() && #[trigger] took(mid, second.take(k), &before) && before.rejects(
            second[k],
            post,
            err,
        );
    lemma_took_concat(pre, first, mid, second.take(k), &before);
    let all = first + second;
    let at = first.len() + k;
    assert(all.take(at) =~= first + second.take(k));
    assert(all[at] == second[k]);
}

/// Two scripts followed to their ends, one after the other, are the two in
/// sequence followed to the end.
pub proof fn lemma_finished_after<E: BaseEncoder>(
    done: Script,
    pre: &E,
    mid: &E,
    next: Script,
    post: &E,
)
    requires
        finished(done, pre, mid),
        finished(next, mid, post),
    ensures
        finished(done.followed_by(next), pre, post),
{
    lemma_took_concat(pre, done.chunks, mid, next.chunks, post);
}

/// A script cut short, after one that was followed to its end, is the two in
/// sequence cut short for the same cause.
pub proof fn lemma_cut_short_after<E: BaseEncoder>(
    done: Script,
    pre: &E,
    mid: &E,
    next: Script,
    post: &E,
    cause: Cause<E::Error>,
)
    requires
        finished(done, pre, mid),
        cut_short(next, mid, post, cause),
    ensures
        cut_short(done.followed_by(next), pre, post, cause),
{
    match cause {
        Cause::Value => lemma_took_concat(pre, done.chunks, mid, next.chunks, post),
        Cause::Destination(err) => lemma_stopped_after(
            pre,
            done.chunks,
            mid,
            next.chunks,
            post,
            err,
        ),
    }
}

/// A script cut short stays cut short, for the same cause, whatever is to
/// follow it.
pub proof fn lemma_cut_short_before<E: BaseEncoder>(
    part: Script,
    rest: Script,
    pre: &E,
    post: &E,
    cause: Cause<E::Error>,
)
    requires
        cut_short(part, pre, post, cause),
    ensures
        cut_short(part.followed_by(rest), pre, post, cause),
{
    match cause {
        Cause::Value => {},
        Cause::Destination(err) => {
            if part.complete {
                lemma_stopped_extend(pre, part.chunks, rest.chunks, post, err);
            }
        },
    }
}

/// Where the first `k` scripts of a sequence in sequence are cut short, the
/// whole sequence is cut short for the same cause.
pub proof fn lemma_sequence_cut_short<E: BaseEncoder>(
    scripts: Seq<Script>,
    k: int,
    pre: &E,
    post: &E,
    cause: Cause<E::Error>,
)
    requires
        0 <= k <= scripts.len(),
        cut_short(sequence(scripts.take(k)), pre, post, cause),
    ensures
        cut_short(sequence(scripts), pre, post, cause),
{
    lemma_sequence_split(scripts, k);
    lemma_cut_short_before(sequence(scripts.take(k)), sequence(scripts.skip(k)), pre, post, cause);
}

} // verus!
