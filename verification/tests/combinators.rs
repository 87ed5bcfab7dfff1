use core::num::TryFromIntError;

use encode::combinators::Cond;
use encode::combinators::Flags;
use encode::combinators::FromError;
use encode::combinators::Iter;
use encode::combinators::LengthPrefix;
use encode::combinators::Separated;
use encode::combinators::BE;
use encode::combinators::LE;
use encode::encodables::NulTerminated;
use encode::encoders::InsufficientSpace;
use encode::encoders::SizeEncoder;
use encode::Encodable;
use encode::EncodableSize;

/// An error that takes in every error of the tests below.
#[derive(Debug, Clone, PartialEq, Eq)]
enum Failure {
    TooLong,
    NoSpace,
    Never,
}

impl From<TryFromIntError> for Failure {
    fn from(_: TryFromIntError) -> Self {
        Failure::TooLong
    }
}

impl From<InsufficientSpace> for Failure {
    fn from(_: InsufficientSpace) -> Self {
        Failure::NoSpace
    }
}

impl From<core::convert::Infallible> for Failure {
    fn from(_: core::convert::Infallible) -> Self {
        Failure::Never
    }
}

fn written<T: Encodable<Vec<u8>>>(value: T) -> Vec<u8>
where
    T::Error: core::fmt::Debug,
{
    let mut buf = Vec::new();
    value.encode(&mut buf).unwrap();
    buf
}

#[test]
fn big_endian_writes_the_most_significant_byte_first() {
    assert_eq!(written(BE::new(1u16)), [0, 1]);
    assert_eq!(written(BE::new(0xABu8)), [0xAB]);
    assert_eq!(written(BE::new(0x0102_0304u32)), [1, 2, 3, 4]);
    assert_eq!(written(BE::new(0x0102_0304_0506_0708u64)), [1, 2, 3, 4, 5, 6, 7, 8]);
    assert_eq!(
        written(BE::new(0x0102_0304_0506_0708_090A_0B0C_0D0E_0F10u128)),
        [1, 2, 3, 4, 5, 6, 7, 8, 9, 10, 11, 12, 13, 14, 15, 16]
    );
    assert_eq!(written(BE::new(u64::MAX)), [0xFF; 8]);
    assert_eq!(written(BE::new(0u32)), [0; 4]);
}

#[test]
fn little_endian_writes_the_least_significant_byte_first() {
    assert_eq!(written(LE::new(1u16)), [1, 0]);
    assert_eq!(written(LE::new(0xABu8)), [0xAB]);
    assert_eq!(written(LE::new(0x0102_0304u32)), [4, 3, 2, 1]);
    assert_eq!(written(LE::new(0x0102_0304_0506_0708u64)), [8, 7, 6, 5, 4, 3, 2, 1]);
    assert_eq!(
        written(LE::new(0x0102_0304_0506_0708_090A_0B0C_0D0E_0F10u128)),
        [16, 15, 14, 13, 12, 11, 10, 9, 8, 7, 6, 5, 4, 3, 2, 1]
    );
    assert_eq!(written(LE::new(u128::MAX)), [0xFF; 16]);
}

#[test]
fn signed_numbers_are_written_in_twos_complement() {
    assert_eq!(written(BE::new(-1i8)), [0xFF]);
    assert_eq!(written(BE::new(-2i16)), [0xFF, 0xFE]);
    assert_eq!(written(LE::new(-2i16)), [0xFE, 0xFF]);
    assert_eq!(written(BE::new(i32::MIN)), [0x80, 0, 0, 0]);
    assert_eq!(written(LE::new(i32::MIN)), [0, 0, 0, 0x80]);
    assert_eq!(written(BE::new(-256i64)), [0xFF, 0xFF, 0xFF, 0xFF, 0xFF, 0xFF, 0xFF, 0]);
    assert_eq!(written(BE::new(i128::MIN))[0], 0x80);
    assert_eq!(written(LE::new(i128::MIN))[15], 0x80);
    assert_eq!(written(BE::new(258i16)), 258i16.to_be_bytes());
    assert_eq!(written(LE::new(-123_456_789i64)), (-123_456_789i64).to_le_bytes());
}

#[test]
fn byte_order_wrappers_give_their_number_back() {
    assert_eq!(BE::new(7u32).into_inner(), 7);
    assert_eq!(*BE::new(7u32), 7);
    assert_eq!(*BE::new(7u32).as_ref(), 7);
    assert_eq!(u32::from(BE::from(7u32)), 7);
    assert_eq!(LE::new(-7i64).into_inner(), -7);
    assert_eq!(*LE::new(-7i64), -7);
    assert_eq!(i64::from(LE::from(-7i64)), -7);
    assert_eq!(BE::new(1u8), BE::new(1u8).clone());
    assert!(LE::new(1u8) < LE::new(2u8));
}

#[test]
fn byte_order_wrappers_narrow_a_length() {
    assert_eq!(BE::<u8>::try_from(255usize), Ok(BE::new(255u8)));
    assert!(BE::<u8>::try_from(256usize).is_err());
    assert_eq!(LE::<u16>::try_from(65_535usize), Ok(LE::new(65_535u16)));
    assert!(LE::<u16>::try_from(65_536usize).is_err());
    assert_eq!(BE::<i8>::try_from(127usize), Ok(BE::new(127i8)));
    assert!(BE::<i8>::try_from(128usize).is_err());
    assert_eq!(LE::<u64>::try_from(usize::MAX), Ok(LE::new(usize::MAX as u64)));
    assert_eq!(BE::<u128>::try_from(usize::MAX), Ok(BE::new(usize::MAX as u128)));
    assert_eq!(LE::<i128>::try_from(usize::MAX), Ok(LE::new(usize::MAX as i128)));
    assert!(BE::<i32>::try_from(1usize << 31).is_err());
}

#[test]
fn condition_gates_what_is_written() {
    let non_empty = |s: &NulTerminated<'_>| !s.is_empty();

    let hello = NulTerminated::from_bytes_with_nul(b"hello\0").unwrap();
    assert_eq!(written(Cond::new(hello, non_empty)), b"hello\0");

    let empty = NulTerminated::from_bytes_with_nul(b"\0").unwrap();
    assert_eq!(written(Cond::new(empty, non_empty)), b"");

    let (value, _) = Cond::new(5u8, |byte: &u8| *byte > 3).into_inner();
    assert_eq!(value, 5);
    assert_eq!(*Cond::new(5u8, |byte: &u8| *byte > 3), 5);
}

#[test]
fn condition_that_fails_writes_nothing_even_without_room() {
    let mut encoder = &mut [0u8; 0] as &mut [u8];
    assert_eq!(Cond::new("hello", |_: &&str| false).encode(&mut encoder), Ok(()));
    assert_eq!(
        Cond::new("hello", |_: &&str| true).encode(&mut encoder),
        Err(InsufficientSpace)
    );
}

#[test]
fn flags_are_written_as_one_byte() {
    assert_eq!(written(Flags::new([false; 8])), [0]);
    assert_eq!(
        written(Flags::new([true, false, false, true, false, false, false, false])),
        [0b1001_0000]
    );
    assert_eq!(written(Flags::new([true; 8])), [0xFF]);
    assert_eq!(
        written(Flags::new([false, false, false, false, false, false, false, true])),
        [1]
    );
    assert_eq!(u8::from(Flags::new([false, true, false, false, false, false, true, true])), 0b0100_0011);
}

#[test]
fn flags_show_themselves_as_binary_digits() {
    let flags = Flags::new([true, false, false, true, false, false, false, false]);
    assert_eq!(format!("{:?}", flags), "Flags(10010000)");
    assert_eq!(format!("{:?}", Flags::new([false; 8])), "Flags(00000000)");
}

#[test]
fn flags_of_a_byte_are_its_digits_from_the_least_significant() {
    let flags = Flags::from(0b0000_0101u8);
    assert_eq!(*flags, [true, false, true, false, false, false, false, false]);
    assert_eq!(*Flags::from(0x80u8).as_ref(), [false, false, false, false, false, false, false, true]);
    assert_eq!(*Flags::from(0u8), [false; 8]);
    assert_eq!(*Flags::from(0xFFu8), [true; 8]);
    assert_eq!(u8::from(Flags::from(0b0000_0101u8)), 0b1010_0000);
}

#[test]
fn from_error_hands_on_the_bytes_and_converts_the_error() {
    assert_eq!(written(FromError::<_, TryFromIntError>::new("hello")), b"hello");

    let mut storage = [0u8; 2];
    let mut encoder = &mut storage as &mut [u8];
    let res = FromError::<_, Failure>::new("hello").encode(&mut encoder);
    assert_eq!(res, Err(Failure::NoSpace));

    let stored: Result<u8, InsufficientSpace> = Err(InsufficientSpace);
    let mut encoder = &mut storage as &mut [u8];
    assert_eq!(FromError::<_, Failure>::new(stored).encode(&mut encoder), Err(Failure::NoSpace));
    assert_eq!(encoder.len(), 2);

    assert_eq!(FromError::<_, Failure>::new(3u8).into_inner(), 3);
    assert_eq!(*FromError::<_, Failure>::new(3u8), 3);
    assert!(FromError::<_, Failure>::new(3u8) == FromError::new(3u8).clone());
    assert!(FromError::<_, Failure>::new(3u8) < FromError::new(4u8));
    assert_eq!(FromError::<u8, Failure>::default().into_inner(), 0);
}

#[test]
fn members_with_different_errors_share_one_after_conversion() {
    let mut storage = [0u8; 8];
    let mut encoder = &mut storage as &mut [u8];
    let value = (
        FromError::<_, Failure>::new(1u8),
        LengthPrefix::<_, u8, Failure>::new("ab"),
        FromError::<_, Failure>::new(Some(9u8)),
    );
    assert_eq!(value.encode(&mut encoder), Ok(()));
    assert_eq!(&storage[..5], [1, 2, b'a', b'b', 9]);
}

#[test]
fn iter_writes_the_items_in_order() {
    let compact_map = [
        (NulTerminated::from_bytes_with_nul(b"hello\0").unwrap(), 1u8),
        (NulTerminated::from_bytes_with_nul(b"world\0").unwrap(), 2u8),
    ];
    assert_eq!(written(Iter::new(&compact_map)), b"hello\0\x01world\0\x02");
    assert_eq!(written(Iter::new(&compact_map[..])), b"hello\0\x01world\0\x02");
    assert_eq!(written(Iter::new(compact_map)), b"hello\0\x01world\0\x02");
    assert_eq!(written(Iter::new(vec![1u8, 2, 3])), [1, 2, 3]);
    assert_eq!(written(Iter::new(&vec!["a", "b"])), b"ab");
    assert_eq!(written(Iter::new(&[0u8; 0])), b"");
    assert_eq!(Iter::new(vec![1u8]).into_inner(), [1]);
    assert_eq!(Iter::new([1u8, 2]).len(), 2);
}

#[test]
fn iter_stops_at_the_first_item_that_fails() {
    let mut storage = [0u8; 5];
    let mut encoder = &mut storage as &mut [u8];
    let res = Iter::new(&["ab", "cd", "ef", "g"]).encode(&mut encoder);
    assert_eq!(res, Err(InsufficientSpace));
    assert_eq!(&storage[..4], b"abcd");
    assert_eq!(storage[4], 0);
}

#[test]
fn separated_joins_the_items() {
    let array = ["hello", "world", "another"];
    assert_eq!(written(Separated::new(&array, ", ")), b"hello, world, another");
    assert_eq!(written(Separated::new(&array[..], ", ")), b"hello, world, another");
    assert_eq!(written(Separated::new(array, ", ")), b"hello, world, another");
    assert_eq!(written(Separated::new(array.to_vec(), ", ")), b"hello, world, another");
    assert_eq!(written(Separated::new(&array.to_vec(), ", ")), b"hello, world, another");
    assert_eq!(written(Separated::new(&["alone"], ", ")), b"alone");
    assert_eq!(written(Separated::new(&[""; 0], ", ")), b"");
    assert_eq!(written(Separated::new(&[1u8, 2, 3], 0u8)), [1, 0, 2, 0, 3]);
    let (items, separator) = Separated::new([1u8, 2], 0u8).into_inner();
    assert_eq!((items, separator), ([1, 2], 0));
}

#[test]
fn separated_stops_at_the_first_write_that_fails() {
    let mut storage = [0u8; 4];
    let mut encoder = &mut storage as &mut [u8];
    let res = Separated::new(&["ab", "cd"], ", ").encode(&mut encoder);
    assert_eq!(res, Err(InsufficientSpace));
    assert_eq!(storage, [b'a', b'b', b',', b' ']);

    let mut storage = [0u8; 3];
    let mut encoder = &mut storage as &mut [u8];
    let res = Separated::new(&["ab", "cd"], ", ").encode(&mut encoder);
    assert_eq!(res, Err(InsufficientSpace));
    assert_eq!(storage, [b'a', b'b', 0]);
}

#[test]
fn length_prefix_writes_the_length_before_the_value() {
    assert_eq!(
        written(LengthPrefix::<_, u8, TryFromIntError>::new("hello")),
        b"\x05hello"
    );
    assert_eq!(
        written(LengthPrefix::<_, BE<u16>, Failure>::new("hello")),
        b"\x00\x05hello"
    );
    assert_eq!(
        written(LengthPrefix::<_, LE<u32>, Failure>::new(("ab", 0u8))),
        b"\x03\x00\x00\x00ab\x00"
    );
    assert_eq!(written(LengthPrefix::<_, u8, TryFromIntError>::new("")), b"\x00");
    assert_eq!(
        written(LengthPrefix::<_, u8, Failure>::new(LengthPrefix::<_, u8, Failure>::new("hi"))),
        b"\x03\x02hi"
    );
}

#[test]
fn length_prefix_fails_where_the_length_does_not_fit() {
    let long = vec![7u8; 256];
    let mut buf = Vec::new();
    let res = LengthPrefix::<_, u8, Failure>::new(&long).encode(&mut buf);
    assert_eq!(res, Err(Failure::TooLong));
    assert!(buf.is_empty());

    let fits = vec![7u8; 255];
    let mut buf = Vec::new();
    LengthPrefix::<_, u8, Failure>::new(&fits).encode(&mut buf).unwrap();
    assert_eq!(buf.len(), 256);
    assert_eq!(buf[0], 255);

    assert_eq!(
        LengthPrefix::<_, u8, Failure>::new(&long).encoded_size(),
        Err(Failure::TooLong)
    );
    assert_eq!(LengthPrefix::<_, BE<u16>, Failure>::new(&long).encoded_size(), Ok(258));
}

#[test]
fn length_prefix_reports_the_errors_of_its_parts() {
    let mut storage = [0u8; 3];
    let mut encoder = &mut storage as &mut [u8];
    let res = LengthPrefix::<_, u8, Failure>::new("hello").encode(&mut encoder);
    assert_eq!(res, Err(Failure::NoSpace));
    assert_eq!(storage, [5, 0, 0]);

    let mut encoder = &mut [0u8; 0] as &mut [u8];
    let res = LengthPrefix::<_, u8, Failure>::new("hello").encode(&mut encoder);
    assert_eq!(res, Err(Failure::NoSpace));
}

#[test]
fn length_prefix_gives_its_value_back() {
    let prefixed = LengthPrefix::<_, u8, Failure>::from("hello");
    assert_eq!(*prefixed, "hello");
    assert_eq!(*prefixed.as_ref(), "hello");
    assert!(prefixed == prefixed.clone());
    assert!(LengthPrefix::<_, u8, Failure>::new(1u8) < LengthPrefix::new(2u8));
    assert_eq!(prefixed.into_inner(), "hello");
    assert_eq!(LengthPrefix::<u8, u8, Failure>::default().into_inner(), 0);
}

#[test]
fn a_length_that_counts_its_own_field_is_added_by_the_caller() {
    let payload = ("ab", 0u8);
    let size = payload.encoded_size().unwrap() + 4;
    let document = (LE::<u32>::try_from(size).unwrap(), payload);
    assert_eq!(written(document), b"\x07\x00\x00\x00ab\x00");
}

#[test]
fn size_encoder_runs_the_combinators() {
    let mut encoder = SizeEncoder::new();
    let value = (
        BE::new(1u16),
        Separated::new(["a", "bc"], ", "),
        Iter::new([1u8, 2]),
        Flags::new([true; 8]),
    );
    value.encode(&mut encoder).unwrap();
    assert_eq!(encoder.size(), 2 + 5 + 2 + 1);
}
