use core::ops::Deref;
use vstd::prelude::*;
use vstd::std_specs::convert::FromSpecImpl;

use crate::ByteEncoder;
use crate::Cause;
use crate::Encodable;
use crate::Script;

verus! {

/// Eight flags that are written as one byte, the first flag as the most
/// significant bit.
///
/// The flags `[true, false, false, true, false, false, false, false]` are
/// written as the byte `0b1001_0000`.
#[derive(Clone, Copy, PartialEq, Eq, PartialOrd, Ord)]
pub struct Flags([bool; 8]);

/// The `write!` of `core` into a formatter: the word `Flags` and, in round
/// brackets, the eight binary digits of `byte`.
#[verifier::external_body]
fn write_digits(f: &mut core::fmt::Formatter<'_>, byte: u8) -> core::fmt::Result {
    write!(f, "Flags({:08b})", byte)
}

/// The number whose binary digits are `bits`, the first of them the most
/// significant.
pub open spec fn binary(bits: Seq<bool>) -> nat
    decreases bits.len(),
{
    if bits.len() == 0 {
        0
    } else {
        2 * binary(bits.drop_last()) + if bits.last() {
            1nat
        } else {
            0nat
        }
    }
}

/// 2 to the power of `exponent`.
pub open spec fn power_of_2(exponent: nat) -> nat
    decreases exponent,
{
    if exponent == 0 {
        1
    } else {
        2 * power_of_2((exponent - 1) as nat)
    }
}

/// The eight binary digits of `value`, the first of them the least
/// significant.
pub open spec fn digits(value: u8) -> Seq<bool> {
    Seq::new(8, |i: int| (value as nat / power_of_2(i as nat)) % 2 == 1)
}

/// A number of `bits.len()` binary digits is below 2 to that power.
proof fn lemma_binary_bound(bits: Seq<bool>)
    ensures
        binary(bits) < power_of_2(bits.len()),
    decreases bits.len(),
{
    if bits.len() > 0 {
        lemma_binary_bound(bits.drop_last());
    }
}

impl Flags {
    /// The flags, from the first to the eighth.
    pub closed spec fn bits(self) -> Seq<bool> {
        self.0@
    }

    /// The wrapper of the flags `bits`.
    pub closed spec fn holding(bits: [bool; 8]) -> Self {
        Flags(bits)
    }

    /// The wrapper of eight flags holds those flags.
    pub proof fn lemma_holding(bits: [bool; 8])
        ensures
            Self::holding(bits).bits() == bits@,
    {
    }

    /// Wraps the flags `flags`.
    #[inline]
    #[must_use]
    pub fn new(flags: [bool; 8]) -> (wrapper: Self)
        ensures
            wrapper == Self::holding(flags),
            wrapper.bits() == flags@,
    {
        Self(flags)
    }
}

impl core::fmt::Debug for Flags {
    /// Shows the flags as the binary digits of the byte that they are
    /// written as.
    fn fmt(&self, f: &mut core::fmt::Formatter<'_>) -> core::fmt::Result {
        write_digits(f, u8::from(*self))
    }
}

impl Deref for Flags {
    type Target = [bool; 8];

    #[inline]
    fn deref(&self) -> (flags: &Self::Target)
        ensures
            flags@ == self.bits(),
    {
        &self.0
    }
}

impl AsRef<[bool; 8]> for Flags {
    #[inline]
    fn as_ref(&self) -> (flags: &[bool; 8])
        ensures
            flags@ == self.bits(),
    {
        &self.0
    }
}

impl From<u8> for Flags {
    /// The flags that are the binary digits of `value`, the first flag the
    /// least significant digit.
    #[inline]
    fn from(value: u8) -> (wrapper: Self) {
        let mut flags = [false;8];
        let mut rest: u8 = value;
        let mut at: usize = 0;
        assert(power_of_2(0) == 1);
        while at < 8
            invariant
                at <= 8,
                rest == value as nat / power_of_2(at as nat),
                forall|i: int| 0 <= i < at ==> flags@[i] == digits(value)[i],
            decreases 8 - at,
        {
            proof {
                lemma_next_digit(value as nat, at as nat);
            }
            flags[at] = rest % 2 == 1;
            rest = rest / 2;
            at += 1;
        }
        assert(flags@ =~= digits(value));
        let wrapper = Self(flags);
        proof {
            assert(wrapper.bits() == digits(value));
            let chosen = choose|wrapper: Flags| wrapper.bits() == digits(value);
            assert forall|i: int| 0 <= i < 8 implies wrapper.0[i] == chosen.0[i] by {
                assert(wrapper.0@[i] == chosen.0@[i]);
            }
            assert(wrapper.0 =~= chosen.0);
        }
        wrapper
    }
}

impl FromSpecImpl<u8> for Flags {
    open spec fn obeys_from_spec() -> bool {
        true
    }

    open spec fn from_spec(value: u8) -> Self {
        choose|wrapper: Flags| wrapper.bits() == digits(value)
    }
}

impl From<Flags> for u8 {
    /// The byte whose binary digits are the flags, the first flag the most
    /// significant digit.
    #[inline]
    fn from(value: Flags) -> (byte: Self) {
        let mut byte: u8 = 0;
        let mut at: usize = 0;
        assert(value.0@.take(0) =~= Seq::<bool>::empty());
        while at < 8
            invariant
                at <= 8,
                byte == binary(value.0@.take(at as int)),
            decreases 8 - at,
        {
            proof {
                let next = value.0@.take(at + 1);
                assert(next.drop_last() =~= value.0@.take(at as int));
                lemma_binary_bound(value.0@.take(at as int));
                lemma_powers_grow(at as nat, 7);
                assert(power_of_2(7) == 128) by {
                    reveal_with_fuel(power_of_2, 8);
                }
            }
            let bit: u8 = if value.0[at] {
                1
            } else {
                0
            };
            byte = byte * 2 + bit;
            at += 1;
        }
        assert(value.0@.take(8) =~= value.0@);
        byte
    }
}

impl FromSpecImpl<Flags> for u8 {
    open spec fn obeys_from_spec() -> bool {
        true
    }

    open spec fn from_spec(value: Flags) -> Self {
        binary(value.bits()) as u8
    }
}

/// Dividing by 2 once more moves on to the next digit.
proof fn lemma_next_digit(value: nat, place: nat)
    ensures
        (value / power_of_2(place)) / 2 == value / power_of_2(place + 1),
{
    lemma_power_positive(place);
    vstd::arithmetic::div_mod::lemma_div_denominator(value as int, power_of_2(place) as int, 2);
    assert(power_of_2(place + 1) == 2 * power_of_2(place));
    assert(power_of_2(place) * 2 == 2 * power_of_2(place)) by (nonlinear_arith);
}

proof fn lemma_power_positive(exponent: nat)
    ensures
        power_of_2(exponent) > 0,
    decreases exponent,
{
    if exponent > 0 {
        lemma_power_positive((exponent - 1) as nat);
    }
}

proof fn lemma_powers_grow(low: nat, high: nat)
    requires
        low <= high,
    ensures
        power_of_2(low) <= power_of_2(high),
    decreases high - low,
{
    if low < high {
        lemma_powers_grow(low, (high - 1) as nat);
    }
}

impl<E: ByteEncoder> Encodable<E> for Flags {
    type Error = E::Error;

    open spec fn well_formed(&self) -> bool {
        true
    }

    /// The flags as one byte, the first flag the most significant bit.
    open spec fn script(&self) -> Script {
        Script::one(seq![binary(self.bits()) as u8])
    }

    open spec fn surfaces(&self, cause: Cause<E::Error>, err: Self::Error) -> bool {
        cause == Cause::Destination(err)
    }

    #[inline]
    fn encode(&self, encoder: &mut E) -> (res: Result<(), Self::Error>) {
        let byte = u8::from(*self);
        let res = byte.encode(encoder);
        proof {
            assert(<Self as Encodable<E>>::script(self) == <u8 as Encodable<E>>::script(&byte));
        }
        res
    }
}

} // verus!
