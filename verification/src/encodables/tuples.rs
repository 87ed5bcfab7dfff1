use vstd::prelude::*;

use crate::run::encode_member;
use crate::script::reached;
use crate::script::sequence;
use crate::BaseEncoder;
use crate::Cause;
use crate::Encodable;
use crate::Script;

verus! {

broadcast use vstd::std_specs::control_flow::group_control_flow_axioms;

impl<E: BaseEncoder> Encodable<E> for () {
    type Error = E::Error;

    open spec fn well_formed(&self) -> bool {
        true
    }

    /// The unit writes nothing.
    open spec fn script(&self) -> Script {
        Script::empty()
    }

    open spec fn surfaces(&self, cause: Cause<E::Error>, err: Self::Error) -> bool {
        false
    }

    #[inline]
    fn encode(&self, encoder: &mut E) -> (res: Result<(), Self::Error>) {
        Ok(())
    }
}

impl<ENC, A> Encodable<ENC> for (A,) where
    ENC: BaseEncoder,
    A: Encodable<ENC>,
 {
    type Error = A::Error;

    open spec fn well_formed(&self) -> bool {
        self.0.well_formed()
    }

    /// A tuple of one member writes what the member writes.
    open spec fn script(&self) -> Script {
        sequence(seq![self.0.script()])
    }

    /// The errors of the members that the run gets as far as.
    open spec fn surfaces(&self, cause: Cause<ENC::Error>, err: Self::Error) -> bool {
        let scripts = seq![self.0.script()];
        ||| reached(scripts, 0) && self.0.surfaces(cause, err)
    }

    #[inline]
    fn encode(&self, encoder: &mut ENC) -> (res: Result<(), Self::Error>) {
        let ghost start = *encoder;
        let ghost scripts = seq![self.0.script()];
        proof {
            assert(scripts.take(0) =~= Seq::<Script>::empty());
            assert(<Self as Encodable<ENC>>::script(self) == sequence(scripts));
        }
        encode_member(&self.0, encoder, Ghost(start), Ghost(scripts), Ghost(0))?;
        proof {
            assert(scripts.take(1) =~= scripts);
        }
        Ok(())
    }
}

impl<ENC, A, B> Encodable<ENC> for (A, B) where
    ENC: BaseEncoder,
    A: Encodable<ENC>,
    B: Encodable<ENC, Error = A::Error>,
 {
    type Error = A::Error;

    open spec fn well_formed(&self) -> bool {
        self.0.well_formed() && self.1.well_formed()
    }

    /// A tuple writes what its members write, from the first to the last.
    open spec fn script(&self) -> Script {
        sequence(seq![self.0.script(), self.1.script()])
    }

    /// The errors of the members that the run gets as far as.
    open spec fn surfaces(&self, cause: Cause<ENC::Error>, err: Self::Error) -> bool {
        let scripts = seq![self.0.script(), self.1.script()];
        ||| reached(scripts, 0) && self.0.surfaces(cause, err)
        ||| reached(scripts, 1) && self.1.surfaces(cause, err)
    }

    #[inline]
    fn encode(&self, encoder: &mut ENC) -> (res: Result<(), Self::Error>) {
        let ghost start = *encoder;
        let ghost scripts = seq![self.0.script(), self.1.script()];
        proof {
            assert(scripts.take(0) =~= Seq::<Script>::empty());
            assert(<Self as Encodable<ENC>>::script(self) == sequence(scripts));
        }
        encode_member(&self.0, encoder, Ghost(start), Ghost(scripts), Ghost(0))?;
        encode_member(&self.1, encoder, Ghost(start), Ghost(scripts), Ghost(1))?;
        proof {
            assert(scripts.take(2) =~= scripts);
        }
        Ok(())
    }
}

impl<ENC, A, B, C> Encodable<ENC> for (A, B, C) where
    ENC: BaseEncoder,
    A: Encodable<ENC>,
    B: Encodable<ENC, Error = A::Error>,
    C: Encodable<ENC, Error = A::Error>,
 {
    type Error = A::Error;

    open spec fn well_formed(&self) -> bool {
        self.0.well_formed() && self.1.well_formed() && self.2.well_formed()
    }

    /// A tuple writes what its members write, from the first to the last.
    open spec fn script(&self) -> Script {
        sequence(seq![self.0.script(), self.1.script(), self.2.script()])
    }

    /// The errors of the members that the run gets as far as.
    open spec fn surfaces(&self, cause: Cause<ENC::Error>, err: Self::Error) -> bool {
        let scripts = seq![self.0.script(), self.1.script(), self.2.script()];
        ||| reached(scripts, 0) && self.0.surfaces(cause, err)
        ||| reached(scripts, 1) && self.1.surfaces(cause, err)
        ||| reached(scripts, 2) && self.2.surfaces(cause, err)
    }

    #[inline]
    fn encode(&self, encoder: &mut ENC) -> (res: Result<(), Self::Error>) {
        let ghost start = *encoder;
        let ghost scripts = seq![self.0.script(), self.1.script(), self.2.script()];
        proof {
            assert(scripts.take(0) =~= Seq::<Script>::empty());
            assert(<Self as Encodable<ENC>>::script(self) == sequence(scripts));
        }
        encode_member(&self.0, encoder, Ghost(start), Ghost(scripts), Ghost(0))?;
        encode_member(&self.1, encoder, Ghost(start), Ghost(scripts), Ghost(1))?;
        encode_member(&self.2, encoder, Ghost(start), Ghost(scripts), Ghost(2))?;
        proof {
            assert(scripts.take(3) =~= scripts);
        }
        Ok(())
    }
}

impl<ENC, A, B, C, D> Encodable<ENC> for (A, B, C, D) where
    ENC: BaseEncoder,
    A: Encodable<ENC>,
    B: Encodable<ENC, Error = A::Error>,
    C: Encodable<ENC, Error = A::Error>,
    D: Encodable<ENC, Error = A::Error>,
 {
    type Error = A::Error;

    open spec fn well_formed(&self) -> bool {
        self.0.well_formed() && self.1.well_formed() && self.2.well_formed() &&
            self.3.well_formed()
    }

    /// A tuple writes what its members write, from the first to the last.
    open spec fn script(&self) -> Script {
        sequence(
            seq![
                self.0.script(), self.1.script(), self.2.script(), self.3.script(),
            ],
        )
    }

    /// The errors of the members that the run gets as far as.
    open spec fn surfaces(&self, cause: Cause<ENC::Error>, err: Self::Error) -> bool {
        let scripts = seq![
            self.0.script(), self.1.script(), self.2.script(), self.3.script(),
        ];
        ||| reached(scripts, 0) && self.0.surfaces(cause, err)
        ||| reached(scripts, 1) && self.1.surfaces(cause, err)
        ||| reached(scripts, 2) && self.2.surfaces(cause, err)
        ||| reached(scripts, 3) && self.3.surfaces(cause, err)
    }

    #[inline]
    fn encode(&self, encoder: &mut ENC) -> (res: Result<(), Self::Error>) {
        let ghost start = *encoder;
        let ghost scripts = seq![
            self.0.script(), self.1.script(), self.2.script(), self.3.script(),
        ];
        proof {
            assert(scripts.take(0) =~= Seq::<Script>::empty());
            assert(<Self as Encodable<ENC>>::script(self) == sequence(scripts));
        }
        encode_member(&self.0, encoder, Ghost(start), Ghost(scripts), Ghost(0))?;
        encode_member(&self.1, encoder, Ghost(start), Ghost(scripts), Ghost(1))?;
        encode_member(&self.2, encoder, Ghost(start), Ghost(scripts), Ghost(2))?;
        encode_member(&self.3, encoder, Ghost(start), Ghost(scripts), Ghost(3))?;
        proof {
            assert(scripts.take(4) =~= scripts);
        }
        Ok(())
    }
}

impl<ENC, A, B, C, D, E> Encodable<ENC> for (A, B, C, D, E) where
    ENC: BaseEncoder,
    A: Encodable<ENC>,
    B: Encodable<ENC, Error = A::Error>,
    C: Encodable<ENC, Error = A::Error>,
    D: Encodable<ENC, Error = A::Error>,
    E: Encodable<ENC, Error = A::Error>,
 {
    type Error = A::Error;

    open spec fn well_formed(&self) -> bool {
        self.0.well_formed() && self.1.well_formed() && self.2.well_formed() &&
            self.3.well_formed() && self.4.well_formed()
    }

    /// A tuple writes what its members write, from the first to the last.
    open spec fn script(&self) -> Script {
        sequence(
            seq![
                self.0.script(), self.1.script(), self.2.script(), self.3.script(),
                self.4.script(),
            ],
        )
    }

    /// The errors of the members that the run gets as far as.
    open spec fn surfaces(&self, cause: Cause<ENC::Error>, err: Self::Error) -> bool {
        let scripts = seq![
            self.0.script(), self.1.script(), self.2.script(), self.3.script(), self.4.script(),
        ];
        ||| reached(scripts, 0) && self.0.surfaces(cause, err)
        ||| reached(scripts, 1) && self.1.surfaces(cause, err)
        ||| reached(scripts, 2) && self.2.surfaces(cause, err)
        ||| reached(scripts, 3) && self.3.surfaces(cause, err)
        ||| reached(scripts, 4) && self.4.surfaces(cause, err)
    }

    #[inline]
    fn encode(&self, encoder: &mut ENC) -> (res: Result<(), Self::Error>) {
        let ghost start = *encoder;
        let ghost scripts = seq![
            self.0.script(), self.1.script(), self.2.script(), self.3.script(), self.4.script(),
        ];
        proof {
            assert(scripts.take(0) =~= Seq::<Script>::empty());
            assert(<Self as Encodable<ENC>>::script(self) == sequence(scripts));
        }
        encode_member(&self.0, encoder, Ghost(start), Ghost(scripts), Ghost(0))?;
        encode_member(&self.1, encoder, Ghost(start), Ghost(scripts), Ghost(1))?;
        encode_member(&self.2, encoder, Ghost(start), Ghost(scripts), Ghost(2))?;
        encode_member(&self.3, encoder, Ghost(start), Ghost(scripts), Ghost(3))?;
        encode_member(&self.4, encoder, Ghost(start), Ghost(scripts), Ghost(4))?;
        proof {
            assert(scripts.take(5) =~= scripts);
        }
        Ok(())
    }
}

impl<ENC, A, B, C, D, E, F> Encodable<ENC> for (A, B, C, D, E, F) where
    ENC: BaseEncoder,
    A: Encodable<ENC>,
    B: Encodable<ENC, Error = A::Error>,
    C: Encodable<ENC, Error = A::Error>,
    D: Encodable<ENC, Error = A::Error>,
    E: Encodable<ENC, Error = A::Error>,
    F: Encodable<ENC, Error = A::Error>,
 {
    type Error = A::Error;

    open spec fn well_formed(&self) -> bool {
        self.0.well_formed() && self.1.well_formed() && self.2.well_formed() &&
            self.3.well_formed() && self.4.well_formed() && self.5.well_formed()
    }

    /// A tuple writes what its members write, from the first to the last.
    open spec fn script(&self) -> Script {
        sequence(
            seq![
                self.0.script(), self.1.script(), self.2.script(), self.3.script(),
                self.4.script(), self.5.script(),
            ],
        )
    }

    /// The errors of the members that the run gets as far as.
    open spec fn surfaces(&self, cause: Cause<ENC::Error>, err: Self::Error) -> bool {
        let scripts = seq![
            self.0.script(), self.1.script(), self.2.script(), self.3.script(),
            self.4.script(), self.5.script(),
        ];
        ||| reached(scripts, 0) && self.0.surfaces(cause, err)
        ||| reached(scripts, 1) && self.1.surfaces(cause, err)
        ||| reached(scripts, 2) && self.2.surfaces(cause, err)
        ||| reached(scripts, 3) && self.3.surfaces(cause, err)
        ||| reached(scripts, 4) && self.4.surfaces(cause, err)
        ||| reached(scripts, 5) && self.5.surfaces(cause, err)
    }

    #[inline]
    fn encode(&self, encoder: &mut ENC) -> (res: Result<(), Self::Error>) {
        let ghost start = *encoder;
        let ghost scripts = seq![
            self.0.script(), self.1.script(), self.2.script(), self.3.script(),
            self.4.script(), self.5.script(),
        ];
        proof {
            assert(scripts.take(0) =~= Seq::<Script>::empty());
            assert(<Self as Encodable<ENC>>::script(self) == sequence(scripts));
        }
        encode_member(&self.0, encoder, Ghost(start), Ghost(scripts), Ghost(0))?;
        encode_member(&self.1, encoder, Ghost(start), Ghost(scripts), Ghost(1))?;
        encode_member(&self.2, encoder, Ghost(start), Ghost(scripts), Ghost(2))?;
        encode_member(&self.3, encoder, Ghost(start), Ghost(scripts), Ghost(3))?;
        encode_member(&self.4, encoder, Ghost(start), Ghost(scripts), Ghost(4))?;
        encode_member(&self.5, encoder, Ghost(start), Ghost(scripts), Ghost(5))?;
        proof {
            assert(scripts.take(6) =~= scripts);
        }
        Ok(())
    }
}

impl<ENC, A, B, C, D, E, F, G> Encodable<ENC> for (A, B, C, D, E, F, G) where
    ENC: BaseEncoder,
    A: Encodable<ENC>,
    B: Encodable<ENC, Error = A::Error>,
    C: Encodable<ENC, Error = A::Error>,
    D: Encodable<ENC, Error = A::Error>,
    E: Encodable<ENC, Error = A::Error>,
    F: Encodable<ENC, Error = A::Error>,
    G: Encodable<ENC, Error = A::Error>,
 {
    type Error = A::Error;

    open spec fn well_formed(&self) -> bool {
        self.0.well_formed() && self.1.well_formed() && self.2.well_formed() &&
            self.3.well_formed() && self.4.well_formed() && self.5.well_formed() &&
            self.6.well_formed()
    }

    /// A tuple writes what its members write, from the first to the last.
    open spec fn script(&self) -> Script {
        sequence(
            seq![
                self.0.script(), self.1.script(), self.2.script(), self.3.script(),
                self.4.script(), self.5.script(), self.6.script(),
            ],
        )
    }

    /// The errors of the members that the run gets as far as.
    open spec fn surfaces(&self, cause: Cause<ENC::Error>, err: Self::Error) -> bool {
        let scripts = seq![
            self.0.script(), self.1.script(), self.2.script(), self.3.script(),
            self.4.script(), self.5.script(), self.6.script(),
        ];
        ||| reached(scripts, 0) && self.0.surfaces(cause, err)
        ||| reached(scripts, 1) && self.1.surfaces(cause, err)
        ||| reached(scripts, 2) && self.2.surfaces(cause, err)
        ||| reached(scripts, 3) && self.3.surfaces(cause, err)
        ||| reached(scripts, 4) && self.4.surfaces(cause, err)
        ||| reached(scripts, 5) && self.5.surfaces(cause, err)
        ||| reached(scripts, 6) && self.6.surfaces(cause, err)
    }

    #[inline]
    fn encode(&self, encoder: &mut ENC) -> (res: Result<(), Self::Error>) {
        let ghost start = *encoder;
        let ghost scripts = seq![
            self.0.script(), self.1.script(), self.2.script(), self.3.script(),
            self.4.script(), self.5.script(), self.6.script(),
        ];
        proof {
            assert(scripts.take(0) =~= Seq::<Script>::empty());
            assert(<Self as Encodable<ENC>>::script(self) == sequence(scripts));
        }
        encode_member(&self.0, encoder, Ghost(start), Ghost(scripts), Ghost(0))?;
        encode_member(&self.1, encoder, Ghost(start), Ghost(scripts), Ghost(1))?;
        encode_member(&self.2, encoder, Ghost(start), Ghost(scripts), Ghost(2))?;
        encode_member(&self.3, encoder, Ghost(start), Ghost(scripts), Ghost(3))?;
        encode_member(&self.4, encoder, Ghost(start), Ghost(scripts), Ghost(4))?;
        encode_member(&self.5, encoder, Ghost(start), Ghost(scripts), Ghost(5))?;
        encode_member(&self.6, encoder, Ghost(start), Ghost(scripts), Ghost(6))?;
        proof {
            assert(scripts.take(7) =~= scripts);
        }
        Ok(())
    }
}

impl<ENC, A, B, C, D, E, F, G, H> Encodable<ENC> for (A, B, C, D, E, F, G, H) where
    ENC: BaseEncoder,
    A: Encodable<ENC>,
    B: Encodable<ENC, Error = A::Error>,
    C: Encodable<ENC, Error = A::Error>,
    D: Encodable<ENC, Error = A::Error>,
    E: Encodable<ENC, Error = A::Error>,
    F: Encodable<ENC, Error = A::Error>,
    G: Encodable<ENC, Error = A::Error>,
    H: Encodable<ENC, Error = A::Error>,
 {
    type Error = A::Error;

    open spec fn well_formed(&self) -> bool {
        self.0.well_formed() && self.1.well_formed() && self.2.well_formed() &&
            self.3.well_formed() && self.4.well_formed() && self.5.well_formed() &&
            self.6.well_formed() && self.7.well_formed()
    }

    /// A tuple writes what its members write, from the first to the last.
    open spec fn script(&self) -> Script {
        sequence(
            seq![
                self.0.script(), self.1.script(), self.2.script(), self.3.script(),
                self.4.script(), self.5.script(), self.6.script(), self.7.script(),
            ],
        )
    }

    /// The errors of the members that the run gets as far as.
    open spec fn surfaces(&self, cause: Cause<ENC::Error>, err: Self::Error) -> bool {
        let scripts = seq![
            self.0.script(), self.1.script(), self.2.script(), self.3.script(),
            self.4.script(), self.5.script(), self.6.script(), self.7.script(),
        ];
        ||| reached(scripts, 0) && self.0.surfaces(cause, err)
        ||| reached(scripts, 1) && self.1.surfaces(cause, err)
        ||| reached(scripts, 2) && self.2.surfaces(cause, err)
        ||| reached(scripts, 3) && self.3.surfaces(cause, err)
        ||| reached(scripts, 4) && self.4.surfaces(cause, err)
        ||| reached(scripts, 5) && self.5.surfaces(cause, err)
        ||| reached(scripts, 6) && self.6.surfaces(cause, err)
        ||| reached(scripts, 7) && self.7.surfaces(cause, err)
    }

    #[inline]
    fn encode(&self, encoder: &mut ENC) -> (res: Result<(), Self::Error>) {
        let ghost start = *encoder;
        let ghost scripts = seq![
            self.0.script(), self.1.script(), self.2.script(), self.3.script(),
            self.4.script(), self.5.script(), self.6.script(), self.7.script(),
        ];
        proof {
            assert(scripts.take(0) =~= Seq::<Script>::empty());
            assert(<Self as Encodable<ENC>>::script(self) == sequence(scripts));
        }
        encode_member(&self.0, encoder, Ghost(start), Ghost(scripts), Ghost(0))?;
        encode_member(&self.1, encoder, Ghost(start), Ghost(scripts), Ghost(1))?;
        encode_member(&self.2, encoder, Ghost(start), Ghost(scripts), Ghost(2))?;
        encode_member(&self.3, encoder, Ghost(start), Ghost(scripts), Ghost(3))?;
        encode_member(&self.4, encoder, Ghost(start), Ghost(scripts), Ghost(4))?;
        encode_member(&self.5, encoder, Ghost(start), Ghost(scripts), Ghost(5))?;
        encode_member(&self.6, encoder, Ghost(start), Ghost(scripts), Ghost(6))?;
        encode_member(&self.7, encoder, Ghost(start), Ghost(scripts), Ghost(7))?;
        proof {
            assert(scripts.take(8) =~= scripts);
        }
        Ok(())
    }
}

impl<ENC, A, B, C, D, E, F, G, H, I> Encodable<ENC> for (A, B, C, D, E, F, G, H, I) where
    ENC: BaseEncoder,
    A: Encodable<ENC>,
    B: Encodable<ENC, Error = A::Error>,
    C: Encodable<ENC, Error = A::Error>,
    D: Encodable<ENC, Error = A::Error>,
    E: Encodable<ENC, Error = A::Error>,
    F: Encodable<ENC, Error = A::Error>,
    G: Encodable<ENC, Error = A::Error>,
    H: Encodable<ENC, Error = A::Error>,
    I: Encodable<ENC, Error = A::Error>,
 {
    type Error = A::Error;

    open spec fn well_formed(&self) -> bool {
        self.0.well_formed() && self.1.well_formed() && self.2.well_formed() &&
            self.3.well_formed() && self.4.well_formed() && self.5.well_formed() &&
            self.6.well_formed() && self.7.well_formed() && self.8.well_formed()
    }

    /// A tuple writes what its members write, from the first to the last.
    open spec fn script(&self) -> Script {
        sequence(
            seq![
                self.0.script(), self.1.script(), self.2.script(), self.3.script(),
                self.4.script(), self.5.script(), self.6.script(), self.7.script(),
                self.8.script(),
            ],
        )
    }

    /// The errors of the members that the run gets as far as.
    open spec fn surfaces(&self, cause: Cause<ENC::Error>, err: Self::Error) -> bool {
        let scripts = seq![
            self.0.script(), self.1.script(), self.2.script(), self.3.script(),
            self.4.script(), self.5.script(), self.6.script(), self.7.script(), self.8.script(),
        ];
        ||| reached(scripts, 0) && self.0.surfaces(cause, err)
        ||| reached(scripts, 1) && self.1.surfaces(cause, err)
        ||| reached(scripts, 2) && self.2.surfaces(cause, err)
        ||| reached(scripts, 3) && self.3.surfaces(cause, err)
        ||| reached(scripts, 4) && self.4.surfaces(cause, err)
        ||| reached(scripts, 5) && self.5.surfaces(cause, err)
        ||| reached(scripts, 6) && self.6.surfaces(cause, err)
        ||| reached(scripts, 7) && self.7.surfaces(cause, err)
        ||| reached(scripts, 8) && self.8.surfaces(cause, err)
    }

    #[inline]
    fn encode(&self, encoder: &mut ENC) -> (res: Result<(), Self::Error>) {
        let ghost start = *encoder;
        let ghost scripts = seq![
            self.0.script(), self.1.script(), self.2.script(), self.3.script(),
            self.4.script(), self.5.script(), self.6.script(), self.7.script(), self.8.script(),
        ];
        proof {
            assert(scripts.take(0) =~= Seq::<Script>::empty());
            assert(<Self as Encodable<ENC>>::script(self) == sequence(scripts));
        }
        encode_member(&self.0, encoder, Ghost(start), Ghost(scripts), Ghost(0))?;
        encode_member(&self.1, encoder, Ghost(start), Ghost(scripts), Ghost(1))?;
        encode_member(&self.2, encoder, Ghost(start), Ghost(scripts), Ghost(2))?;
        encode_member(&self.3, encoder, Ghost(start), Ghost(scripts), Ghost(3))?;
        encode_member(&self.4, encoder, Ghost(start), Ghost(scripts), Ghost(4))?;
        encode_member(&self.5, encoder, Ghost(start), Ghost(scripts), Ghost(5))?;
        encode_member(&self.6, encoder, Ghost(start), Ghost(scripts), Ghost(6))?;
        encode_member(&self.7, encoder, Ghost(start), Ghost(scripts), Ghost(7))?;
        encode_member(&self.8, encoder, Ghost(start), Ghost(scripts), Ghost(8))?;
        proof {
            assert(scripts.take(9) =~= scripts);
        }
        Ok(())
    }
}

impl<ENC, A, B, C, D, E, F, G, H, I, J> Encodable<ENC> for (A, B, C, D, E, F, G, H, I, J) where
    ENC: BaseEncoder,
    A: Encodable<ENC>,
    B: Encodable<ENC, Error = A::Error>,
    C: Encodable<ENC, Error = A::Error>,
    D: Encodable<ENC, Error = A::Error>,
    E: Encodable<ENC, Error = A::Error>,
    F: Encodable<ENC, Error = A::Error>,
    G: Encodable<ENC, Error = A::Error>,
    H: Encodable<ENC, Error = A::Error>,
    I: Encodable<ENC, Error = A::Error>,
    J: Encodable<ENC, Error = A::Error>,
 {
    type Error = A::Error;

    open spec fn well_formed(&self) -> bool {
        self.0.well_formed() && self.1.well_formed() && self.2.well_formed() &&
            self.3.well_formed() && self.4.well_formed() && self.5.well_formed() &&
            self.6.well_formed() && self.7.well_formed() && self.8.well_formed() &&
            self.9.well_formed()
    }

    /// A tuple writes what its members write, from the first to the last.
    open spec fn script(&self) -> Script {
        sequence(
            seq![
                self.0.script(), self.1.script(), self.2.script(), self.3.script(),
                self.4.script(), self.5.script(), self.6.script(), self.7.script(),
                self.8.script(), self.9.script(),
            ],
        )
    }

    /// The errors of the members that the run gets as far as.
    open spec fn surfaces(&self, cause: Cause<ENC::Error>, err: Self::Error) -> bool {
        let scripts = seq![
            self.0.script(), self.1.script(), self.2.script(), self.3.script(),
            self.4.script(), self.5.script(), self.6.script(), self.7.script(),
            self.8.script(), self.9.script(),
        ];
        ||| reached(scripts, 0) && self.0.surfaces(cause, err)
        ||| reached(scripts, 1) && self.1.surfaces(cause, err)
        ||| reached(scripts, 2) && self.2.surfaces(cause, err)
        ||| reached(scripts, 3) && self.3.surfaces(cause, err)
        ||| reached(scripts, 4) && self.4.surfaces(cause, err)
        ||| reached(scripts, 5) && self.5.surfaces(cause, err)
        ||| reached(scripts, 6) && self.6.surfaces(cause, err)
        ||| reached(scripts, 7) && self.7.surfaces(cause, err)
        ||| reached(scripts, 8) && self.8.surfaces(cause, err)
        ||| reached(scripts, 9) && self.9.surfaces(cause, err)
    }

    #[inline]
    fn encode(&self, encoder: &mut ENC) -> (res: Result<(), Self::Error>) {
        let ghost start = *encoder;
        let ghost scripts = seq![
            self.0.script(), self.1.script(), self.2.script(), self.3.script(),
            self.4.script(), self.5.script(), self.6.script(), self.7.script(),
            self.8.script(), self.9.script(),
        ];
        proof {
            assert(scripts.take(0) =~= Seq::<Script>::empty());
            assert(<Self as Encodable<ENC>>::script(self) == sequence(scripts));
        }
        encode_member(&self.0, encoder, Ghost(start), Ghost(scripts), Ghost(0))?;
        encode_member(&self.1, encoder, Ghost(start), Ghost(scripts), Ghost(1))?;
        encode_member(&self.2, encoder, Ghost(start), Ghost(scripts), Ghost(2))?;
        encode_member(&self.3, encoder, Ghost(start), Ghost(scripts), Ghost(3))?;
        encode_member(&self.4, encoder, Ghost(start), Ghost(scripts), Ghost(4))?;
        encode_member(&self.5, encoder, Ghost(start), Ghost(scripts), Ghost(5))?;
        encode_member(&self.6, encoder, Ghost(start), Ghost(scripts), Ghost(6))?;
        encode_member(&self.7, encoder, Ghost(start), Ghost(scripts), Ghost(7))?;
        encode_member(&self.8, encoder, Ghost(start), Ghost(scripts), Ghost(8))?;
        encode_member(&self.9, encoder, Ghost(start), Ghost(scripts), Ghost(9))?;
        proof {
            assert(scripts.take(10) =~= scripts);
        }
        Ok(())
    }
}

impl<ENC, A, B, C, D, E, F, G, H, I, J, K> Encodable<ENC> for (
    A,
    B,
    C,
    D,
    E,
    F,
    G,
    H,
    I,
    J,
    K,
) where
    ENC: BaseEncoder,
    A: Encodable<ENC>,
    B: Encodable<ENC, Error = A::Error>,
    C: Encodable<ENC, Error = A::Error>,
    D: Encodable<ENC, Error = A::Error>,
    E: Encodable<ENC, Error = A::Error>,
    F: Encodable<ENC, Error = A::Error>,
    G: Encodable<ENC, Error = A::Error>,
    H: Encodable<ENC, Error = A::Error>,
    I: Encodable<ENC, Error = A::Error>,
    J: Encodable<ENC, Error = A::Error>,
    K: Encodable<ENC, Error = A::Error>,
 {
    type Error = A::Error;

    open spec fn well_formed(&self) -> bool {
        self.0.well_formed() && self.1.well_formed() && self.2.well_formed() &&
            self.3.well_formed() && self.4.well_formed() && self.5.well_formed() &&
            self.6.well_formed() && self.7.well_formed() && self.8.well_formed() &&
            self.9.well_formed() && self.10.well_formed()
    }

    /// A tuple writes what its members write, from the first to the last.
    open spec fn script(&self) -> Script {
        sequence(
            seq![
                self.0.script(), self.1.script(), self.2.script(), self.3.script(),
                self.4.script(), self.5.script(), self.6.script(), self.7.script(),
                self.8.script(), self.9.script(), self.10.script(),
            ],
        )
    }

    /// The errors of the members that the run gets as far as.
    open spec fn surfaces(&self, cause: Cause<ENC::Error>, err: Self::Error) -> bool {
        let scripts = seq![
            self.0.script(), self.1.script(), self.2.script(), self.3.script(),
            self.4.script(), self.5.script(), self.6.script(), self.7.script(),
            self.8.script(), self.9.script(), self.10.script(),
        ];
        ||| reached(scripts, 0) && self.0.surfaces(cause, err)
        ||| reached(scripts, 1) && self.1.surfaces(cause, err)
        ||| reached(scripts, 2) && self.2.surfaces(cause, err)
        ||| reached(scripts, 3) && self.3.surfaces(cause, err)
        ||| reached(scripts, 4) && self.4.surfaces(cause, err)
        ||| reached(scripts, 5) && self.5.surfaces(cause, err)
        ||| reached(scripts, 6) && self.6.surfaces(cause, err)
        ||| reached(scripts, 7) && self.7.surfaces(cause, err)
        ||| reached(scripts, 8) && self.8.surfaces(cause, err)
        ||| reached(scripts, 9) && self.9.surfaces(cause, err)
        ||| reached(scripts, 10) && self.10.surfaces(cause, err)
    }

    #[inline]
    fn encode(&self, encoder: &mut ENC) -> (res: Result<(), Self::Error>) {
        let ghost start = *encoder;
        let ghost scripts = seq![
            self.0.script(), self.1.script(), self.2.script(), self.3.script(),
            self.4.script(), self.5.script(), self.6.script(), self.7.script(),
            self.8.script(), self.9.script(), self.10.script(),
        ];
        proof {
            assert(scripts.take(0) =~= Seq::<Script>::empty());
            assert(<Self as Encodable<ENC>>::script(self) == sequence(scripts));
        }
        encode_member(&self.0, encoder, Ghost(start), Ghost(scripts), Ghost(0))?;
        encode_member(&self.1, encoder, Ghost(start), Ghost(scripts), Ghost(1))?;
        encode_member(&self.2, encoder, Ghost(start), Ghost(scripts), Ghost(2))?;
        encode_member(&self.3, encoder, Ghost(start), Ghost(scripts), Ghost(3))?;
        encode_member(&self.4, encoder, Ghost(start), Ghost(scripts), Ghost(4))?;
        encode_member(&self.5, encoder, Ghost(start), Ghost(scripts), Ghost(5))?;
        encode_member(&self.6, encoder, Ghost(start), Ghost(scripts), Ghost(6))?;
        encode_member(&self.7, encoder, Ghost(start), Ghost(scripts), Ghost(7))?;
        encode_member(&self.8, encoder, Ghost(start), Ghost(scripts), Ghost(8))?;
        encode_member(&self.9, encoder, Ghost(start), Ghost(scripts), Ghost(9))?;
        encode_member(&self.10, encoder, Ghost(start), Ghost(scripts), Ghost(10))?;
        proof {
            assert(scripts.take(11) =~= scripts);
        }
        Ok(())
    }
}

impl<ENC, A, B, C, D, E, F, G, H, I, J, K, L> Encodable<ENC> for (
    A,
    B,
    C,
    D,
    E,
    F,
    G,
    H,
    I,
    J,
    K,
    L,
) where
    ENC: BaseEncoder,
    A: Encodable<ENC>,
    B: Encodable<ENC, Error = A::Error>,
    C: Encodable<ENC, Error = A::Error>,
    D: Encodable<ENC, Error = A::Error>,
    E: Encodable<ENC, Error = A::Error>,
    F: Encodable<ENC, Error = A::Error>,
    G: Encodable<ENC, Error = A::Error>,
    H: Encodable<ENC, Error = A::Error>,
    I: Encodable<ENC, Error = A::Error>,
    J: Encodable<ENC, Error = A::Error>,
    K: Encodable<ENC, Error = A::Error>,
    L: Encodable<ENC, Error = A::Error>,
 {
    type Error = A::Error;

    open spec fn well_formed(&self) -> bool {
        self.0.well_formed() && self.1.well_formed() && self.2.well_formed() &&
            self.3.well_formed() && self.4.well_formed() && self.5.well_formed() &&
            self.6.well_formed() && self.7.well_formed() && self.8.well_formed() &&
            self.9.well_formed() && self.10.well_formed() && self.11.well_formed()
    }

    /// A tuple writes what its members write, from the first to the last.
    open spec fn script(&self) -> Script {
        sequence(
            seq![
                self.0.script(), self.1.script(), self.2.script(), self.3.script(),
                self.4.script(), self.5.script(), self.6.script(), self.7.script(),
                self.8.script(), self.9.script(), self.10.script(), self.11.script(),
            ],
        )
    }

    /// The errors of the members that the run gets as far as.
    open spec fn surfaces(&self, cause: Cause<ENC::Error>, err: Self::Error) -> bool {
        let scripts = seq![
            self.0.script(), self.1.script(), self.2.script(), self.3.script(),
            self.4.script(), self.5.script(), self.6.script(), self.7.script(),
            self.8.script(), self.9.script(), self.10.script(), self.11.script(),
        ];
        ||| reached(scripts, 0) && self.0.surfaces(cause, err)
        ||| reached(scripts, 1) && self.1.surfaces(cause, err)
        ||| reached(scripts, 2) && self.2.surfaces(cause, err)
        ||| reached(scripts, 3) && self.3.surfaces(cause, err)
        ||| reached(scripts, 4) && self.4.surfaces(cause, err)
        ||| reached(scripts, 5) && self.5.surfaces(cause, err)
        ||| reached(scripts, 6) && self.6.surfaces(cause, err)
        ||| reached(scripts, 7) && self.7.surfaces(cause, err)
        ||| reached(scripts, 8) && self.8.surfaces(cause, err)
        ||| reached(scripts, 9) && self.9.surfaces(cause, err)
        ||| reached(scripts, 10) && self.10.surfaces(cause, err)
        ||| reached(scripts, 11) && self.11.surfaces(cause, err)
    }

    #[inline]
    fn encode(&self, encoder: &mut ENC) -> (res: Result<(), Self::Error>) {
        let ghost start = *encoder;
        let ghost scripts = seq![
            self.0.script(), self.1.script(), self.2.script(), self.3.script(),
            self.4.script(), self.5.script(), self.6.script(), self.7.script(),
            self.8.script(), self.9.script(), self.10.script(), self.11.script(),
        ];
        proof {
            assert(scripts.take(0) =~= Seq::<Script>::empty());
            assert(<Self as Encodable<ENC>>::script(self) == sequence(scripts));
        }
        encode_member(&self.0, encoder, Ghost(start), Ghost(scripts), Ghost(0))?;
        encode_member(&self.1, encoder, Ghost(start), Ghost(scripts), Ghost(1))?;
        encode_member(&self.2, encoder, Ghost(start), Ghost(scripts), Ghost(2))?;
        encode_member(&self.3, encoder, Ghost(start), Ghost(scripts), Ghost(3))?;
        encode_member(&self.4, encoder, Ghost(start), Ghost(scripts), Ghost(4))?;
        encode_member(&self.5, encoder, Ghost(start), Ghost(scripts), Ghost(5))?;
        encode_member(&self.6, encoder, Ghost(start), Ghost(scripts), Ghost(6))?;
        encode_member(&self.7, encoder, Ghost(start), Ghost(scripts), Ghost(7))?;
        encode_member(&self.8, encoder, Ghost(start), Ghost(scripts), Ghost(8))?;
        encode_member(&self.9, encoder, Ghost(start), Ghost(scripts), Ghost(9))?;
        encode_member(&self.10, encoder, Ghost(start), Ghost(scripts), Ghost(10))?;
        encode_member(&self.11, encoder, Ghost(start), Ghost(scripts), Ghost(11))?;
        proof {
            assert(scripts.take(12) =~= scripts);
        }
        Ok(())
    }
}

} // verus!
