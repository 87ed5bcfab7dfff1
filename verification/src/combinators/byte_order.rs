//! The bytes of an integer in the two byte orders.
use vstd::arithmetic::div_mod::lemma_div_denominator;
use vstd::prelude::*;
use vstd::slice::slice_subrange;

use crate::script::wrote;
use crate::ByteEncoder;

verus! {

/// 256 to the power of `exponent`.
pub open spec fn power_of_256(exponent: nat) -> nat
    decreases exponent,
{
    if exponent == 0 {
        1
    } else {
        256 * power_of_256((exponent - 1) as nat)
    }
}

/// The byte of `value` at `place`, where place 0 is the least significant
/// byte.
pub open spec fn byte_at(value: nat, place: nat) -> u8 {
    ((value / power_of_256(place)) % 256) as u8
}

/// The `width` low bytes of `value`, the least significant byte first.
pub open spec fn le_bytes(value: nat, width: nat) -> Seq<u8> {
    Seq::new(width, |i: int| byte_at(value, i as nat))
}

/// The `width` low bytes of `value`, the most significant byte first.
pub open spec fn be_bytes(value: nat, width: nat) -> Seq<u8> {
    Seq::new(width, |i: int| byte_at(value, (width - 1 - i) as nat))
}

proof fn lemma_power_positive(exponent: nat)
    ensures
        power_of_256(exponent) > 0,
    decreases exponent,
{
    if exponent > 0 {
        lemma_power_positive((exponent - 1) as nat);
    }
}

/// Dividing by 256 once more moves on to the next place.
proof fn lemma_next_place(value: nat, place: nat)
    ensures
        (value / power_of_256(place)) / 256 == value / power_of_256(place + 1),
{
    lemma_power_positive(place);
    lemma_div_denominator(value as int, power_of_256(place) as int, 256);
    assert(power_of_256(place + 1) == 256 * power_of_256(place));
    assert(power_of_256(place) * 256 == 256 * power_of_256(place)) by (nonlinear_arith);
}

/// Hands the `width` low bytes of `value` to `encoder` in one write, the
/// least significant byte first.
pub(crate) fn put_le<E: ByteEncoder>(value: u128, width: usize, encoder: &mut E) -> (res: Result<
    (),
    E::Error,
>)
    requires
        width <= 16,
    ensures
        wrote(old(encoder), le_bytes(value as nat, width as nat), final(encoder), res),
{
    let mut buffer = [0u8; 16];
    let mut rest: u128 = value;
    let mut at: usize = 0;
    assert(power_of_256(0) == 1);
    while at < width
        invariant
            at <= width <= 16,
            rest == value as nat / power_of_256(at as nat),
            forall|i: int| 0 <= i < at ==> buffer@[i] == byte_at(value as nat, i as nat),
        decreases width - at,
    {
        proof {
            lemma_next_place(value as nat, at as nat);
        }
        buffer[at] = (rest % 256) as u8;
        rest = rest / 256;
        at += 1;
    }
    let bytes = slice_subrange(buffer.as_slice(), 0, width);
    assert(bytes@ =~= le_bytes(value as nat, width as nat));
    encoder.put_slice(bytes)
}

/// Hands the `width` low bytes of `value` to `encoder` in one write, the
/// most significant byte first.
pub(crate) fn put_be<E: ByteEncoder>(value: u128, width: usize, encoder: &mut E) -> (res: Result<
    (),
    E::Error,
>)
    requires
        width <= 16,
    ensures
        wrote(old(encoder), be_bytes(value as nat, width as nat), final(encoder), res),
{
    let mut buffer = [0u8; 16];
    let mut rest: u128 = value;
    let mut at: usize = 0;
    assert(power_of_256(0) == 1);
    while at < width
        invariant
            at <= width <= 16,
            rest == value as nat / power_of_256(at as nat),
            forall|i: int|
                width - at <= i < width ==> buffer@[i] == byte_at(
                    value as nat,
                    (width - 1 - i) as nat,
                ),
        decreases width - at,
    {
        proof {
            lemma_next_place(value as nat, at as nat);
        }
        buffer[width - 1 - at] = (rest % 256) as u8;
        rest = rest / 256;
        at += 1;
    }
    let bytes = slice_subrange(buffer.as_slice(), 0, width);
    assert(bytes@ =~= be_bytes(value as nat, width as nat));
    encoder.put_slice(bytes)
}

} // verus!
