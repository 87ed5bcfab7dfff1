use vstd::prelude::*;
use vstd::string::StringSliceAdditionalSpecFns;

use crate::script::wrote;
use crate::StrEncoder;

verus! {

/// The writer through which `core::fmt` renders text into a destination.
///
/// It hands every piece of text on to the destination, and keeps the error
/// of the piece that the destination refused: `core::fmt` has no room for
/// it in its own error.
pub struct Adapter<'a, E: StrEncoder> {
    /// The destination.
    pub encoder: &'a mut E,
    /// The error that is kept, if a piece was refused.
    pub error: Option<E::Error>,
}

impl<'a, E: StrEncoder> Adapter<'a, E> {
    /// A writer into `encoder` that keeps no error.
    pub fn new(encoder: &'a mut E) -> (adapter: Self)
        ensures
            *adapter.encoder == *old(encoder),
            *final(adapter.encoder) == *final(encoder),
            adapter.error is None,
    {
        Adapter { encoder, error: None }
    }

    /// Whether handing on the piece `s` may take the writer from `self` to
    /// `post` and end in `res`.
    ///
    /// It ends in `Ok` when the destination took the piece, and then the
    /// error that is kept is the one that was kept before. It ends in the
    /// error of `core::fmt` when the destination refused the piece, and
    /// then the error of the destination is the one that is kept.
    pub open spec fn handed_on(
        &self,
        s: &str,
        post: &Self,
        res: Result<(), core::fmt::Error>,
    ) -> bool {
        match res {
            Ok(()) => {
                &&& wrote(&*self.encoder, s.spec_bytes(), &*post.encoder, Ok(()))
                &&& post.error == self.error
            },
            Err(_) => post.error matches Some(err) && wrote(
                &*self.encoder,
                s.spec_bytes(),
                &*post.encoder,
                Err(err),
            ),
        }
    }

    /// Hands the piece `s` on to the destination. If the destination
    /// refuses it, the error is kept and the call fails.
    pub fn write_piece(&mut self, s: &str) -> (res: Result<(), core::fmt::Error>)
        ensures
            old(self).handed_on(s, final(self), res),
            *final(final(self).encoder) == *final(old(self).encoder),
    {
        match self.encoder.put_str(s) {
            Ok(()) => Ok(()),
            Err(error) => {
                self.error = Some(error);
                Err(core::fmt::Error)
            },
        }
    }

    /// What the encoding of rendered text ends in, given what the rendering
    /// ended in: success if the rendering succeeded, and else the error that
    /// was kept. The destination stays as the writer leaves it.
    pub fn finish(self, rendered: Result<(), core::fmt::Error>) -> (res: Result<(), E::Error>)
        requires
            rendered is Err ==> self.error is Some,
        ensures
            res == match rendered {
                Ok(()) => Ok(()),
                Err(_) => Err(self.error->Some_0),
            },
            *final(self.encoder) == *old(self.encoder),
    {
        match rendered {
            Ok(()) => Ok(()),
            Err(_) => match self.error {
                Some(error) => Err(error),
                None => Ok(()),
            },
        }
    }

    /// Whether an error is kept.
    pub fn has_error(&self) -> (kept: bool)
        ensures
            kept == self.error is Some,
    {
        self.error.is_some()
    }
}

impl<'a, E: StrEncoder> core::fmt::Write for Adapter<'a, E> {
    #[inline]
    fn write_str(&mut self, s: &str) -> (res: core::fmt::Result)
        ensures
            old(self).handed_on(s, final(self), res),
            *final(final(self).encoder) == *final(old(self).encoder),
    {
        self.write_piece(s)
    }
}

} // verus!
