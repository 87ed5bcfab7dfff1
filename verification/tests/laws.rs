use arrayvec::ArrayVec;
use encode::combinators::Cond;
use encode::combinators::Iter;
use encode::combinators::LengthPrefix;
use encode::combinators::Separated;
use encode::combinators::BE;
use encode::encoders::InsufficientSpace;
use encode::encoders::SizeEncoder;
use encode::Encodable;
use encode::EncodableSize;

fn sample<'a>() -> (&'a str, u8, Option<BE<u32>>, Iter<[bool; 3]>, Separated<Vec<char>, &'a str>) {
    (
        "hello",
        0u8,
        Some(BE::new(7u32)),
        Iter::new([true, false, true]),
        Separated::new(vec!['a', '\u{e9}'], ", "),
    )
}

#[test]
fn size_is_the_number_of_bytes_written() {
    let value = sample();
    let mut buf = Vec::new();
    value.encode(&mut buf).unwrap();
    assert_eq!(value.encoded_size(), Ok(buf.len()));
    assert_eq!(buf.len(), 5 + 1 + 4 + 3 + 5);

    let mut counter = SizeEncoder::new();
    value.encode(&mut counter).unwrap();
    assert_eq!(counter.size(), buf.len());

    let mut prefixed = vec![0xAAu8];
    value.encode(&mut prefixed).unwrap();
    assert_eq!(prefixed.len() - 1, counter.size());
}

#[test]
fn encoding_twice_gives_the_same_bytes() {
    let value = sample();
    let mut first = Vec::new();
    let mut second = Vec::new();
    value.encode(&mut first).unwrap();
    value.encode(&mut second).unwrap();
    assert_eq!(first, second);
    assert_eq!(first, b"hello\x00\x00\x00\x00\x07\x01\x00\x01a, \xC3\xA9");

    let mut first = vec![1u8, 2];
    let mut second = vec![1u8, 2];
    value.encode(&mut first).unwrap();
    value.encode(&mut second).unwrap();
    assert_eq!(first, second);
}

#[test]
fn a_slice_without_room_refuses_every_value_that_is_not_empty() {
    let mut encoder = &mut [0u8; 0] as &mut [u8];
    assert_eq!(sample().encode(&mut encoder), Err(InsufficientSpace));
    assert_eq!(encoder.len(), 0);
    assert_eq!(1u8.encode(&mut encoder), Err(InsufficientSpace));
    assert_eq!(("", "", "x").encode(&mut encoder), Err(InsufficientSpace));
    assert_eq!(Some('a').encode(&mut encoder), Err(InsufficientSpace));
    assert_eq!(Iter::new(["", "a"]).encode(&mut encoder), Err(InsufficientSpace));
    assert_eq!(encoder.len(), 0);
}

#[test]
fn a_slice_without_room_takes_what_is_empty() {
    let mut encoder = &mut [0u8; 0] as &mut [u8];
    assert_eq!("".encode(&mut encoder), Ok(()));
    assert_eq!(().encode(&mut encoder), Ok(()));
    assert_eq!(None::<u8>.encode(&mut encoder), Ok(()));
    assert_eq!(("", [0u8; 0]).encode(&mut encoder), Ok(()));
    assert_eq!(Cond::new(1u8, |_: &u8| false).encode(&mut encoder), Ok(()));
}

#[test]
fn a_vector_without_capacity_refuses_every_value_that_is_not_empty() {
    let mut encoder = ArrayVec::<u8, 0>::new();
    assert_eq!(sample().encode(&mut encoder), Err(InsufficientSpace));
    assert_eq!(1u8.encode(&mut encoder), Err(InsufficientSpace));
    assert_eq!(("", "x").encode(&mut encoder), Err(InsufficientSpace));
    assert_eq!("".encode(&mut encoder), Ok(()));
    assert!(encoder.is_empty());
}

#[test]
fn a_value_that_fails_by_itself_fails_before_a_destination_without_room_does() {
    let long = vec![0u8; 300];
    let mut encoder = &mut [0u8; 0] as &mut [u8];
    let res = LengthPrefix::<_, u8, Reason>::new(&long).encode(&mut encoder);
    assert_eq!(res, Err(Reason::Length));
}

#[derive(Debug, PartialEq, Eq)]
enum Reason {
    Length,
    Space,
    Never,
}

impl From<core::num::TryFromIntError> for Reason {
    fn from(_: core::num::TryFromIntError) -> Self {
        Reason::Length
    }
}

impl From<InsufficientSpace> for Reason {
    fn from(_: InsufficientSpace) -> Self {
        Reason::Space
    }
}

impl From<core::convert::Infallible> for Reason {
    fn from(_: core::convert::Infallible) -> Self {
        Reason::Never
    }
}

#[test]
fn none_writes_nothing_and_some_writes_its_value() {
    let mut none = Vec::new();
    None::<&str>.encode(&mut none).unwrap();
    assert!(none.is_empty());

    let mut some = Vec::new();
    Some("hello").encode(&mut some).unwrap();
    let mut plain = Vec::new();
    "hello".encode(&mut plain).unwrap();
    assert_eq!(some, plain);
}

#[test]
fn a_stored_failure_writes_nothing_and_comes_back_unchanged() {
    let mut storage = [0u8; 4];
    let mut encoder = &mut storage as &mut [u8];
    ("ab").encode(&mut encoder).unwrap();
    let stored: Result<&str, InsufficientSpace> = Err(InsufficientSpace);
    assert_eq!(stored.encode(&mut encoder), Err(InsufficientSpace));
    assert_eq!(encoder.len(), 2);
    assert_eq!(storage, [b'a', b'b', 0, 0]);

    let mut encoder = &mut storage as &mut [u8];
    let kept: Result<&str, InsufficientSpace> = Ok("cd");
    assert_eq!(kept.encode(&mut encoder), Ok(()));
    assert_eq!(&storage[..2], b"cd");
}

#[test]
fn a_pair_writes_its_members_in_order() {
    let mut buf = Vec::new();
    ("hello", 0u8).encode(&mut buf).unwrap();
    assert_eq!(buf, b"hello\x00");
}
