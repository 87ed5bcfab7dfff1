use core::borrow::Borrow;
use core::ops::Deref;
use vstd::prelude::*;
use vstd::std_specs::convert::FromSpecImpl;
use vstd::std_specs::convert::TryFromSpec;
use vstd::std_specs::convert::TryFromSpecImpl;

use super::byte_order::be_bytes;
use super::byte_order::put_be;
use crate::script::lemma_wrote_one;
use crate::ByteEncoder;
use crate::Cause;
use crate::Encodable;
use crate::Script;

verus! {

/// Writes a number with its most significant byte first.
///
/// `BE::new(1u16)` writes the bytes `[0, 1]`.
#[derive(Debug, Clone, PartialEq, Eq, PartialOrd, Ord)]
pub struct BE<E> {
    num: E,
}

impl<E> BE<E> {
    /// The number that is written.
    pub closed spec fn value(self) -> E {
        self.num
    }

    /// The wrapper of `num`.
    pub closed spec fn holding(num: E) -> Self {
        BE { num }
    }

    /// The wrapper of a number holds that number, and a wrapper is the
    /// wrapper of the number it holds.
    pub proof fn lemma_holding(num: E, wrapper: Self)
        ensures
            Self::holding(num).value() == num,
            Self::holding(wrapper.value()) == wrapper,
    {
    }

    /// Wraps `num`.
    #[inline]
    #[must_use]
    pub fn new(num: E) -> (wrapper: Self)
        ensures
            wrapper == Self::holding(num),
            wrapper.value() == num,
    {
        Self { num }
    }

    /// Gives the number back.
    #[inline]
    #[must_use]
    pub fn into_inner(self) -> (num: E)
        ensures
            num == self.value(),
    {
        self.num
    }
}

impl<E> AsRef<E> for BE<E> {
    #[inline]
    fn as_ref(&self) -> (num: &E)
        ensures
            *num == self.value(),
    {
        &self.num
    }
}

impl<E> Borrow<E> for BE<E> {
    #[inline]
    fn borrow(&self) -> &E
        returns
            &self.value(),
    {
        &self.num
    }
}

impl<E> Deref for BE<E> {
    type Target = E;

    #[inline]
    fn deref(&self) -> (num: &Self::Target)
        ensures
            *num == self.value(),
    {
        &self.num
    }
}

impl From<u8> for BE<u8> {
    #[inline]
    fn from(num: u8) -> (wrapper: Self) {
        Self { num }
    }
}

impl FromSpecImpl<u8> for BE<u8> {
    open spec fn obeys_from_spec() -> bool {
        true
    }

    open spec fn from_spec(num: u8) -> Self {
        BE::holding(num)
    }
}

impl From<BE<u8>> for u8 {
    #[inline]
    fn from(wrapper: BE<u8>) -> (num: Self) {
        wrapper.num
    }
}

impl FromSpecImpl<BE<u8>> for u8 {
    open spec fn obeys_from_spec() -> bool {
        true
    }

    open spec fn from_spec(wrapper: BE<u8>) -> Self {
        wrapper.value()
    }
}

impl TryFrom<usize> for BE<u8> {
    type Error = core::num::TryFromIntError;

    /// Wraps `value` where it is a `u8`, and fails where it is not.
    #[inline]
    fn try_from(value: usize) -> (res: Result<Self, Self::Error>) {
        match u8::try_from(value) {
            Ok(num) => Ok(Self { num }),
            Err(err) => Err(err),
        }
    }
}

impl TryFromSpecImpl<usize> for BE<u8> {
    open spec fn obeys_try_from_spec() -> bool {
        true
    }

    open spec fn try_from_spec(value: usize) -> Result<Self, Self::Error> {
        match <u8 as TryFromSpec<usize>>::try_from_spec(value) {
            Ok(num) => Ok(BE::holding(num)),
            Err(err) => Err(err),
        }
    }
}

impl<E: ByteEncoder> Encodable<E> for BE<u8> {
    type Error = E::Error;

    open spec fn well_formed(&self) -> bool {
        true
    }

    /// The byte that the number is, in one write.
    open spec fn script(&self) -> Script {
        Script::one(be_bytes(self.value() as nat, 1))
    }

    open spec fn surfaces(&self, cause: Cause<E::Error>, err: Self::Error) -> bool {
        cause == Cause::Destination(err)
    }

    #[inline]
    fn encode(&self, encoder: &mut E) -> (res: Result<(), Self::Error>) {
        let res = put_be(self.num as u128, 1, encoder);
        proof {
            let bytes = be_bytes(self.num as nat, 1);
            lemma_wrote_one(old(encoder), bytes, encoder, res);
            assert(<Self as Encodable<E>>::script(self) == Script::one(bytes));
        }
        res
    }
}

impl From<u16> for BE<u16> {
    #[inline]
    fn from(num: u16) -> (wrapper: Self) {
        Self { num }
    }
}

impl FromSpecImpl<u16> for BE<u16> {
    open spec fn obeys_from_spec() -> bool {
        true
    }

    open spec fn from_spec(num: u16) -> Self {
        BE::holding(num)
    }
}

impl From<BE<u16>> for u16 {
    #[inline]
    fn from(wrapper: BE<u16>) -> (num: Self) {
        wrapper.num
    }
}

impl FromSpecImpl<BE<u16>> for u16 {
    open spec fn obeys_from_spec() -> bool {
        true
    }

    open spec fn from_spec(wrapper: BE<u16>) -> Self {
        wrapper.value()
    }
}

impl TryFrom<usize> for BE<u16> {
    type Error = core::num::TryFromIntError;

    /// Wraps `value` where it is a `u16`, and fails where it is not.
    #[inline]
    fn try_from(value: usize) -> (res: Result<Self, Self::Error>) {
        match u16::try_from(value) {
            Ok(num) => Ok(Self { num }),
            Err(err) => Err(err),
        }
    }
}

impl TryFromSpecImpl<usize> for BE<u16> {
    open spec fn obeys_try_from_spec() -> bool {
        true
    }

    open spec fn try_from_spec(value: usize) -> Result<Self, Self::Error> {
        match <u16 as TryFromSpec<usize>>::try_from_spec(value) {
            Ok(num) => Ok(BE::holding(num)),
            Err(err) => Err(err),
        }
    }
}

impl<E: ByteEncoder> Encodable<E> for BE<u16> {
    type Error = E::Error;

    open spec fn well_formed(&self) -> bool {
        true
    }

    /// The 2 bytes of the number, the most significant first, in one
    /// write.
    open spec fn script(&self) -> Script {
        Script::one(be_bytes(self.value() as nat, 2))
    }

    open spec fn surfaces(&self, cause: Cause<E::Error>, err: Self::Error) -> bool {
        cause == Cause::Destination(err)
    }

    #[inline]
    fn encode(&self, encoder: &mut E) -> (res: Result<(), Self::Error>) {
        let res = put_be(self.num as u128, 2, encoder);
        proof {
            let bytes = be_bytes(self.num as nat, 2);
            lemma_wrote_one(old(encoder), bytes, encoder, res);
            assert(<Self as Encodable<E>>::script(self) == Script::one(bytes));
        }
        res
    }
}

impl From<u32> for BE<u32> {
    #[inline]
    fn from(num: u32) -> (wrapper: Self) {
        Self { num }
    }
}

impl FromSpecImpl<u32> for BE<u32> {
    open spec fn obeys_from_spec() -> bool {
        true
    }

    open spec fn from_spec(num: u32) -> Self {
        BE::holding(num)
    }
}

impl From<BE<u32>> for u32 {
    #[inline]
    fn from(wrapper: BE<u32>) -> (num: Self) {
        wrapper.num
    }
}

impl FromSpecImpl<BE<u32>> for u32 {
    open spec fn obeys_from_spec() -> bool {
        true
    }

    open spec fn from_spec(wrapper: BE<u32>) -> Self {
        wrapper.value()
    }
}

impl TryFrom<usize> for BE<u32> {
    type Error = core::num::TryFromIntError;

    /// Wraps `value` where it is a `u32`, and fails where it is not.
    #[inline]
    fn try_from(value: usize) -> (res: Result<Self, Self::Error>) {
        match u32::try_from(value) {
            Ok(num) => Ok(Self { num }),
            Err(err) => Err(err),
        }
    }
}

impl TryFromSpecImpl<usize> for BE<u32> {
    open spec fn obeys_try_from_spec() -> bool {
        true
    }

    open spec fn try_from_spec(value: usize) -> Result<Self, Self::Error> {
        match <u32 as TryFromSpec<usize>>::try_from_spec(value) {
            Ok(num) => Ok(BE::holding(num)),
            Err(err) => Err(err),
        }
    }
}

impl<E: ByteEncoder> Encodable<E> for BE<u32> {
    type Error = E::Error;

    open spec fn well_formed(&self) -> bool {
        true
    }

    /// The 4 bytes of the number, the most significant first, in one
    /// write.
    open spec fn script(&self) -> Script {
        Script::one(be_bytes(self.value() as nat, 4))
    }

    open spec fn surfaces(&self, cause: Cause<E::Error>, err: Self::Error) -> bool {
        cause == Cause::Destination(err)
    }

    #[inline]
    fn encode(&self, encoder: &mut E) -> (res: Result<(), Self::Error>) {
        let res = put_be(self.num as u128, 4, encoder);
        proof {
            let bytes = be_bytes(self.num as nat, 4);
            lemma_wrote_one(old(encoder), bytes, encoder, res);
            assert(<Self as Encodable<E>>::script(self) == Script::one(bytes));
        }
        res
    }
}

impl From<u64> for BE<u64> {
    #[inline]
    fn from(num: u64) -> (wrapper: Self) {
        Self { num }
    }
}

impl FromSpecImpl<u64> for BE<u64> {
    open spec fn obeys_from_spec() -> bool {
        true
    }

    open spec fn from_spec(num: u64) -> Self {
        BE::holding(num)
    }
}

impl From<BE<u64>> for u64 {
    #[inline]
    fn from(wrapper: BE<u64>) -> (num: Self) {
        wrapper.num
    }
}

impl FromSpecImpl<BE<u64>> for u64 {
    open spec fn obeys_from_spec() -> bool {
        true
    }

    open spec fn from_spec(wrapper: BE<u64>) -> Self {
        wrapper.value()
    }
}

impl TryFrom<usize> for BE<u64> {
    type Error = core::num::TryFromIntError;

    /// Wraps `value` where it is a `u64`, and fails where it is not.
    #[inline]
    fn try_from(value: usize) -> (res: Result<Self, Self::Error>) {
        match u64::try_from(value) {
            Ok(num) => Ok(Self { num }),
            Err(err) => Err(err),
        }
    }
}

impl TryFromSpecImpl<usize> for BE<u64> {
    open spec fn obeys_try_from_spec() -> bool {
        true
    }

    open spec fn try_from_spec(value: usize) -> Result<Self, Self::Error> {
        match <u64 as TryFromSpec<usize>>::try_from_spec(value) {
            Ok(num) => Ok(BE::holding(num)),
            Err(err) => Err(err),
        }
    }
}

impl<E: ByteEncoder> Encodable<E> for BE<u64> {
    type Error = E::Error;

    open spec fn well_formed(&self) -> bool {
        true
    }

    /// The 8 bytes of the number, the most significant first, in one
    /// write.
    open spec fn script(&self) -> Script {
        Script::one(be_bytes(self.value() as nat, 8))
    }

    open spec fn surfaces(&self, cause: Cause<E::Error>, err: Self::Error) -> bool {
        cause == Cause::Destination(err)
    }

    #[inline]
    fn encode(&self, encoder: &mut E) -> (res: Result<(), Self::Error>) {
        let res = put_be(self.num as u128, 8, encoder);
        proof {
            let bytes = be_bytes(self.num as nat, 8);
            lemma_wrote_one(old(encoder), bytes, encoder, res);
            assert(<Self as Encodable<E>>::script(self) == Script::one(bytes));
        }
        res
    }
}

impl From<u128> for BE<u128> {
    #[inline]
    fn from(num: u128) -> (wrapper: Self) {
        Self { num }
    }
}

impl FromSpecImpl<u128> for BE<u128> {
    open spec fn obeys_from_spec() -> bool {
        true
    }

    open spec fn from_spec(num: u128) -> Self {
        BE::holding(num)
    }
}

impl From<BE<u128>> for u128 {
    #[inline]
    fn from(wrapper: BE<u128>) -> (num: Self) {
        wrapper.num
    }
}

impl FromSpecImpl<BE<u128>> for u128 {
    open spec fn obeys_from_spec() -> bool {
        true
    }

    open spec fn from_spec(wrapper: BE<u128>) -> Self {
        wrapper.value()
    }
}

impl TryFrom<usize> for BE<u128> {
    type Error = core::num::TryFromIntError;

    /// Wraps `value` where it is a `u128`, and fails where it is not.
    #[inline]
    fn try_from(value: usize) -> (res: Result<Self, Self::Error>) {
        match u128::try_from(value) {
            Ok(num) => Ok(Self { num }),
            Err(err) => Err(err),
        }
    }
}

impl TryFromSpecImpl<usize> for BE<u128> {
    open spec fn obeys_try_from_spec() -> bool {
        true
    }

    open spec fn try_from_spec(value: usize) -> Result<Self, Self::Error> {
        match <u128 as TryFromSpec<usize>>::try_from_spec(value) {
            Ok(num) => Ok(BE::holding(num)),
            Err(err) => Err(err),
        }
    }
}

impl<E: ByteEncoder> Encodable<E> for BE<u128> {
    type Error = E::Error;

    open spec fn well_formed(&self) -> bool {
        true
    }

    /// The 16 bytes of the number, the most significant first, in one
    /// write.
    open spec fn script(&self) -> Script {
        Script::one(be_bytes(self.value() as nat, 16))
    }

    open spec fn surfaces(&self, cause: Cause<E::Error>, err: Self::Error) -> bool {
        cause == Cause::Destination(err)
    }

    #[inline]
    fn encode(&self, encoder: &mut E) -> (res: Result<(), Self::Error>) {
        let res = put_be(self.num as u128, 16, encoder);
        proof {
            let bytes = be_bytes(self.num as nat, 16);
            lemma_wrote_one(old(encoder), bytes, encoder, res);
            assert(<Self as Encodable<E>>::script(self) == Script::one(bytes));
        }
        res
    }
}

impl From<i8> for BE<i8> {
    #[inline]
    fn from(num: i8) -> (wrapper: Self) {
        Self { num }
    }
}

impl FromSpecImpl<i8> for BE<i8> {
    open spec fn obeys_from_spec() -> bool {
        true
    }

    open spec fn from_spec(num: i8) -> Self {
        BE::holding(num)
    }
}

impl From<BE<i8>> for i8 {
    #[inline]
    fn from(wrapper: BE<i8>) -> (num: Self) {
        wrapper.num
    }
}

impl FromSpecImpl<BE<i8>> for i8 {
    open spec fn obeys_from_spec() -> bool {
        true
    }

    open spec fn from_spec(wrapper: BE<i8>) -> Self {
        wrapper.value()
    }
}

impl TryFrom<usize> for BE<i8> {
    type Error = core::num::TryFromIntError;

    /// Wraps `value` where it is a `i8`, and fails where it is not.
    #[inline]
    fn try_from(value: usize) -> (res: Result<Self, Self::Error>) {
        match i8::try_from(value) {
            Ok(num) => Ok(Self { num }),
            Err(err) => Err(err),
        }
    }
}

impl TryFromSpecImpl<usize> for BE<i8> {
    open spec fn obeys_try_from_spec() -> bool {
        true
    }

    open spec fn try_from_spec(value: usize) -> Result<Self, Self::Error> {
        match <i8 as TryFromSpec<usize>>::try_from_spec(value) {
            Ok(num) => Ok(BE::holding(num)),
            Err(err) => Err(err),
        }
    }
}

impl<E: ByteEncoder> Encodable<E> for BE<i8> {
    type Error = E::Error;

    open spec fn well_formed(&self) -> bool {
        true
    }

    /// The byte of the number in two's complement, in one write.
    open spec fn script(&self) -> Script {
        Script::one(be_bytes((self.value() as u8) as nat, 1))
    }

    open spec fn surfaces(&self, cause: Cause<E::Error>, err: Self::Error) -> bool {
        cause == Cause::Destination(err)
    }

    #[inline]
    fn encode(&self, encoder: &mut E) -> (res: Result<(), Self::Error>) {
        let res = put_be(self.num as u8 as u128, 1, encoder);
        proof {
            let bytes = be_bytes((self.num as u8) as nat, 1);
            lemma_wrote_one(old(encoder), bytes, encoder, res);
            assert(<Self as Encodable<E>>::script(self) == Script::one(bytes));
        }
        res
    }
}

impl From<i16> for BE<i16> {
    #[inline]
    fn from(num: i16) -> (wrapper: Self) {
        Self { num }
    }
}

impl FromSpecImpl<i16> for BE<i16> {
    open spec fn obeys_from_spec() -> bool {
        true
    }

    open spec fn from_spec(num: i16) -> Self {
        BE::holding(num)
    }
}

impl From<BE<i16>> for i16 {
    #[inline]
    fn from(wrapper: BE<i16>) -> (num: Self) {
        wrapper.num
    }
}

impl FromSpecImpl<BE<i16>> for i16 {
    open spec fn obeys_from_spec() -> bool {
        true
    }

    open spec fn from_spec(wrapper: BE<i16>) -> Self {
        wrapper.value()
    }
}

impl TryFrom<usize> for BE<i16> {
    type Error = core::num::TryFromIntError;

    /// Wraps `value` where it is a `i16`, and fails where it is not.
    #[inline]
    fn try_from(value: usize) -> (res: Result<Self, Self::Error>) {
        match i16::try_from(value) {
            Ok(num) => Ok(Self { num }),
            Err(err) => Err(err),
        }
    }
}

impl TryFromSpecImpl<usize> for BE<i16> {
    open spec fn obeys_try_from_spec() -> bool {
        true
    }

    open spec fn try_from_spec(value: usize) -> Result<Self, Self::Error> {
        match <i16 as TryFromSpec<usize>>::try_from_spec(value) {
            Ok(num) => Ok(BE::holding(num)),
            Err(err) => Err(err),
        }
    }
}

impl<E: ByteEncoder> Encodable<E> for BE<i16> {
    type Error = E::Error;

    open spec fn well_formed(&self) -> bool {
        true
    }

    /// The 2 bytes of the number in two's complement, the most significant
    /// first, in one write.
    open spec fn script(&self) -> Script {
        Script::one(be_bytes((self.value() as u16) as nat, 2))
    }

    open spec fn surfaces(&self, cause: Cause<E::Error>, err: Self::Error) -> bool {
        cause == Cause::Destination(err)
    }

    #[inline]
    fn encode(&self, encoder: &mut E) -> (res: Result<(), Self::Error>) {
        let res = put_be(self.num as u16 as u128, 2, encoder);
        proof {
            let bytes = be_bytes((self.num as u16) as nat, 2);
            lemma_wrote_one(old(encoder), bytes, encoder, res);
            assert(<Self as Encodable<E>>::script(self) == Script::one(bytes));
        }
        res
    }
}

impl From<i32> for BE<i32> {
    #[inline]
    fn from(num: i32) -> (wrapper: Self) {
        Self { num }
    }
}

impl FromSpecImpl<i32> for BE<i32> {
    open spec fn obeys_from_spec() -> bool {
        true
    }

    open spec fn from_spec(num: i32) -> Self {
        BE::holding(num)
    }
}

impl From<BE<i32>> for i32 {
    #[inline]
    fn from(wrapper: BE<i32>) -> (num: Self) {
        wrapper.num
    }
}

impl FromSpecImpl<BE<i32>> for i32 {
    open spec fn obeys_from_spec() -> bool {
        true
    }

    open spec fn from_spec(wrapper: BE<i32>) -> Self {
        wrapper.value()
    }
}

impl TryFrom<usize> for BE<i32> {
    type Error = core::num::TryFromIntError;

    /// Wraps `value` where it is a `i32`, and fails where it is not.
    #[inline]
    fn try_from(value: usize) -> (res: Result<Self, Self::Error>) {
        match i32::try_from(value) {
            Ok(num) => Ok(Self { num }),
            Err(err) => Err(err),
        }
    }
}

impl TryFromSpecImpl<usize> for BE<i32> {
    open spec fn obeys_try_from_spec() -> bool {
        true
    }

    open spec fn try_from_spec(value: usize) -> Result<Self, Self::Error> {
        match <i32 as TryFromSpec<usize>>::try_from_spec(value) {
            Ok(num) => Ok(BE::holding(num)),
            Err(err) => Err(err),
        }
    }
}

impl<E: ByteEncoder> Encodable<E> for BE<i32> {
    type Error = E::Error;

    open spec fn well_formed(&self) -> bool {
        true
    }

    /// The 4 bytes of the number in two's complement, the most significant
    /// first, in one write.
    open spec fn script(&self) -> Script {
        Script::one(be_bytes((self.value() as u32) as nat, 4))
    }

    open spec fn surfaces(&self, cause: Cause<E::Error>, err: Self::Error) -> bool {
        cause == Cause::Destination(err)
    }

    #[inline]
    fn encode(&self, encoder: &mut E) -> (res: Result<(), Self::Error>) {
        let res = put_be(self.num as u32 as u128, 4, encoder);
        proof {
            let bytes = be_bytes((self.num as u32) as nat, 4);
            lemma_wrote_one(old(encoder), bytes, encoder, res);
            assert(<Self as Encodable<E>>::script(self) == Script::one(bytes));
        }
        res
    }
}

impl From<i64> for BE<i64> {
    #[inline]
    fn from(num: i64) -> (wrapper: Self) {
        Self { num }
    }
}

impl FromSpecImpl<i64> for BE<i64> {
    open spec fn obeys_from_spec() -> bool {
        true
    }

    open spec fn from_spec(num: i64) -> Self {
        BE::holding(num)
    }
}

impl From<BE<i64>> for i64 {
    #[inline]
    fn from(wrapper: BE<i64>) -> (num: Self) {
        wrapper.num
    }
}

impl FromSpecImpl<BE<i64>> for i64 {
    open spec fn obeys_from_spec() -> bool {
        true
    }

    open spec fn from_spec(wrapper: BE<i64>) -> Self {
        wrapper.value()
    }
}

impl TryFrom<usize> for BE<i64> {
    type Error = core::num::TryFromIntError;

    /// Wraps `value` where it is a `i64`, and fails where it is not.
    #[inline]
    fn try_from(value: usize) -> (res: Result<Self, Self::Error>) {
        match i64::try_from(value) {
            Ok(num) => Ok(Self { num }),
            Err(err) => Err(err),
        }
    }
}

impl TryFromSpecImpl<usize> for BE<i64> {
    open spec fn obeys_try_from_spec() -> bool {
        true
    }

    open spec fn try_from_spec(value: usize) -> Result<Self, Self::Error> {
        match <i64 as TryFromSpec<usize>>::try_from_spec(value) {
            Ok(num) => Ok(BE::holding(num)),
            Err(err) => Err(err),
        }
    }
}

impl<E: ByteEncoder> Encodable<E> for BE<i64> {
    type Error = E::Error;

    open spec fn well_formed(&self) -> bool {
        true
    }

    /// The 8 bytes of the number in two's complement, the most significant
    /// first, in one write.
    open spec fn script(&self) -> Script {
        Script::one(be_bytes((self.value() as u64) as nat, 8))
    }

    open spec fn surfaces(&self, cause: Cause<E::Error>, err: Self::Error) -> bool {
        cause == Cause::Destination(err)
    }

    #[inline]
    fn encode(&self, encoder: &mut E) -> (res: Result<(), Self::Error>) {
        let res = put_be(self.num as u64 as u128, 8, encoder);
        proof {
            let bytes = be_bytes((self.num as u64) as nat, 8);
            lemma_wrote_one(old(encoder), bytes, encoder, res);
            assert(<Self as Encodable<E>>::script(self) == Script::one(bytes));
        }
        res
    }
}

impl From<i128> for BE<i128> {
    #[inline]
    fn from(num: i128) -> (wrapper: Self) {
        Self { num }
    }
}

impl FromSpecImpl<i128> for BE<i128> {
    open spec fn obeys_from_spec() -> bool {
        true
    }

    open spec fn from_spec(num: i128) -> Self {
        BE::holding(num)
    }
}

impl From<BE<i128>> for i128 {
    #[inline]
    fn from(wrapper: BE<i128>) -> (num: Self) {
        wrapper.num
    }
}

impl FromSpecImpl<BE<i128>> for i128 {
    open spec fn obeys_from_spec() -> bool {
        true
    }

    open spec fn from_spec(wrapper: BE<i128>) -> Self {
        wrapper.value()
    }
}

impl TryFrom<usize> for BE<i128> {
    type Error = core::num::TryFromIntError;

    /// Every `usize` is an `i128`.
    #[inline]
    fn try_from(value: usize) -> (res: Result<Self, Self::Error>) {
        Ok(Self { num: value as i128 })
    }
}

impl TryFromSpecImpl<usize> for BE<i128> {
    open spec fn obeys_try_from_spec() -> bool {
        true
    }

    open spec fn try_from_spec(value: usize) -> Result<Self, Self::Error> {
        Ok(BE::holding(value as i128))
    }
}

impl<E: ByteEncoder> Encodable<E> for BE<i128> {
    type Error = E::Error;

    open spec fn well_formed(&self) -> bool {
        true
    }

    /// The 16 bytes of the number in two's complement, the most significant
    /// first, in one write.
    open spec fn script(&self) -> Script {
        Script::one(be_bytes((self.value() as u128) as nat, 16))
    }

    open spec fn surfaces(&self, cause: Cause<E::Error>, err: Self::Error) -> bool {
        cause == Cause::Destination(err)
    }

    #[inline]
    fn encode(&self, encoder: &mut E) -> (res: Result<(), Self::Error>) {
        let res = put_be(self.num as u128 as u128, 16, encoder);
        proof {
            let bytes = be_bytes((self.num as u128) as nat, 16);
            lemma_wrote_one(old(encoder), bytes, encoder, res);
            assert(<Self as Encodable<E>>::script(self) == Script::one(bytes));
        }
        res
    }
}

} // verus!
