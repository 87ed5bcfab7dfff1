//! What a call of [`Encodable::encode`] has done, as one predicate, and the
//! steps by which the implementations show it.
use vstd::prelude::*;

use crate::script::cut_short;
use crate::script::finished;
use crate::script::lemma_cut_short_after;
use crate::script::lemma_finished_after;
use crate::script::lemma_sequence_cut_short;
use crate::script::lemma_sequence_next;
use crate::script::reached;
use crate::script::sequence;
use crate::BaseEncoder;
use crate::Cause;
use crate::Encodable;
use crate::Script;

verus! {

/// Whether encoding `value` may take a destination from `pre` to `post` and
/// end in `res`. This is what [`Encodable::encode`] ensures.
///
/// It ends in `Ok` when the script was followed to its end. It ends in an
/// error when the script was cut short, and the error is one that surfaces
/// for the cause: the value, where every chunk was taken and the script is
/// not complete, or the destination, where it refused a chunk after it took
/// those before it.
pub open spec fn ran<E: BaseEncoder, T: Encodable<E> + ?Sized>(
    value: &T,
    pre: &E,
    post: &E,
    res: Result<(), T::Error>,
) -> bool {
    match res {
        Ok(()) => finished(value.script(), pre, post),
        Err(err) => exists|cause: Cause<E::Error>|
            {
                &&& #[trigger] cut_short(value.script(), pre, post, cause)
                &&& value.surfaces(cause, err)
            },
    }
}

/// Encodes `value` as member `k` of a run over `scripts` that began in
/// `start` and has followed the members before it to their ends.
///
/// Either the members up to this one have now been followed to their ends,
/// or the whole sequence is cut short at this member and the error is one
/// that surfaces from `value`.
pub(crate) fn encode_member<E: BaseEncoder, T: Encodable<E> + ?Sized>(
    value: &T,
    encoder: &mut E,
    Ghost(start): Ghost<E>,
    Ghost(scripts): Ghost<Seq<Script>>,
    Ghost(k): Ghost<int>,
) -> (res: Result<(), T::Error>)
    requires
        value.well_formed(),
        0 <= k < scripts.len(),
        scripts[k] == value.script(),
        finished(sequence(scripts.take(k)), &start, old(encoder)),
    ensures
        match res {
            Ok(()) => finished(sequence(scripts.take(k + 1)), &start, final(encoder)),
            Err(err) => reached(scripts, k) && exists|cause: Cause<E::Error>|
                {
                    &&& #[trigger] cut_short(sequence(scripts), &start, final(encoder), cause)
                    &&& value.surfaces(cause, err)
                },
        },
{
    let ghost mid = *encoder;
    let ghost done = sequence(scripts.take(k));
    let res = value.encode(encoder);
    proof {
        lemma_sequence_next(scripts, k);
        if res is Ok {
            lemma_finished_after(done, &start, &mid, value.script(), encoder);
        } else {
            let err = res->Err_0;
            let cause = choose|cause: Cause<E::Error>| #[trigger]
                cut_short(value.script(), &mid, encoder, cause) && value.surfaces(cause, err);
            lemma_cut_short_after(done, &start, &mid, value.script(), encoder, cause);
            lemma_sequence_cut_short(scripts, k + 1, &start, encoder, cause);
        }
    }
    res
}

} // verus!
