use arrayvec::ArrayString;
use arrayvec::ArrayVec;
use bytes::BytesMut;
use encode::encoders::InsufficientSpace;
use encode::encoders::SizeEncoder;
use encode::ByteEncoder;
use encode::Encodable;
use encode::EncodableSize;
use encode::StrEncoder;

#[test]
fn alloc_assert_that_vec_grows() {
    let mut buf = Vec::with_capacity(1);
    let encodable = b"hello";

    encodable.encode(&mut buf).unwrap();

    assert_eq!(buf, b"hello", "The vector grows as necessary");
}

#[test]
fn assert_that_string_grows() {
    let mut buf = String::with_capacity(1);
    let encodable = "hello";

    encodable.encode(&mut buf).unwrap();

    assert_eq!(buf, "hello", "The string grows as necessary");
}

#[test]
fn std_alloc_assert_that_vec_grows() {
    let mut buf = Vec::with_capacity(1);
    let encodable = b"hello";
    buf.put_slice(encodable).unwrap();
    assert_eq!(buf, b"hello", "The vector grows as necessary");
}

#[test]
fn assert_that_encoding_something_into_an_empty_arrayvec_always_fails() {
    let mut encoder = ArrayVec::<u8, 0>::new();
    let encodable = "hello";
    assert!(
        encodable.encode(&mut encoder).is_err(),
        "Empty arrays should always fail"
    );
}

#[test]
fn arrayvec_assert_that_slices_can_be_used_as_encoders() {
    let mut buf = ArrayVec::<u8, 64>::new();
    let encodable = "hello";

    encodable.encode(&mut buf).unwrap();

    assert_eq!(buf.len(), 5, "The buffer should contain 5 bytes");
    assert_eq!(
        buf.as_slice(),
        b"hello",
        "The buffer should contain the encoded string"
    );
}

#[test]
fn assert_that_bytesmut_can_be_used_as_encoder() {
    let mut buf = BytesMut::new();
    let encodable = ("hello", 0u8);

    encodable.encode(&mut buf).unwrap();
    let bytes = buf.freeze();

    assert_eq!(bytes.len(), 6, "The buffer should contain 5 bytes");
    assert_eq!(bytes, b"hello\0"[..]);
}

struct MyEncodable;

impl<E> Encodable<E> for MyEncodable
where
    E: StrEncoder,
{
    type Error = E::Error;

    fn encode(&self, encoder: &mut E) -> Result<(), Self::Error> {
        "Hello world".encode(encoder)
    }
}

impl core::fmt::Display for MyEncodable {
    fn fmt(&self, f: &mut core::fmt::Formatter<'_>) -> Result<(), core::fmt::Error> {
        self.encode(f)
    }
}

#[test]
fn assert_that_formatter_can_be_used_as_an_encoder() {
    let output = format!("{}\n", MyEncodable);

    assert_eq!(output, "Hello world\n");
}

#[test]
fn assert_that_unit_can_be_used_as_an_encoder() {
    let mut encoder = ();
    let encodable = ("hello", 0u8);
    encodable.encode(&mut encoder).unwrap();
}

#[test]
fn assert_that_size_encoder_can_be_used_with_format_strings() {
    let mut size_encoder = SizeEncoder::new();
    let s = "hello world";
    core::fmt::Write::write_str(&mut size_encoder, s).unwrap();
    assert_eq!(size_encoder.size(), s.len());
}

#[test]
fn assert_that_encoding_something_into_an_empty_slice_always_fails() {
    let mut encoder = &mut [0u8; 0] as &mut [u8];
    let encodable = "hello";
    assert!(
        encodable.encode(&mut encoder).is_err(),
        "Empty arrays should always fail"
    );
}

#[test]
fn slices_assert_that_slices_can_be_used_as_encoders() {
    const BUF_SIZE: usize = 64;
    let mut buf = [0u8; BUF_SIZE];
    let mut remaining_buf = &mut buf as &mut [u8];
    let encodable = "hello";

    encodable.encode(&mut remaining_buf).unwrap();
    let bytes_written = BUF_SIZE - remaining_buf.len();

    assert_eq!(bytes_written, 5, "The buffer should contain 5 bytes");
    assert_eq!(
        &buf[..bytes_written],
        b"hello",
        "The buffer should contain the encoded string"
    );
}

#[test]
fn size_encoder_counts_what_it_is_handed() {
    let mut encoder = SizeEncoder::new();
    assert_eq!(encoder.size(), 0);
    encoder.put_slice(b"hello").unwrap();
    encoder.put_byte(0).unwrap();
    encoder.put_str("\u{e9}").unwrap();
    assert_eq!(encoder.size(), 8);
    assert_eq!(usize::from(encoder), 8);
    assert_eq!(SizeEncoder::default().size(), 0);
}

#[test]
fn size_encoder_adds_up_large_blocks() {
    let block = vec![0u8; 1 << 20];
    let mut counter = SizeEncoder::new();
    for _ in 0..3 {
        counter.put_slice(&block).unwrap();
    }
    assert_eq!(counter.size(), 3 << 20);
}

#[test]
fn encoded_size_is_the_number_of_bytes() {
    assert_eq!("hello, world!".encoded_size(), Ok(13));
    assert_eq!(("hello", 0u8).encoded_size(), Ok(6));
    assert_eq!(().encoded_size(), Ok(0));
}

#[test]
fn slice_takes_what_fits_and_is_used_up_by_a_refusal() {
    let mut storage = [0u8; 4];
    let mut encoder = &mut storage as &mut [u8];
    encoder.put_slice(b"ab").unwrap();
    assert_eq!(encoder.len(), 2);
    assert_eq!(encoder.put_slice(b"cde"), Err(InsufficientSpace));
    assert_eq!(encoder.len(), 0);
    assert_eq!(encoder.put_byte(b'x'), Err(InsufficientSpace));
    assert_eq!(encoder.put_slice(b""), Ok(()));
    assert_eq!(storage, [b'a', b'b', 0, 0]);

    let mut exact = [0u8; 3];
    let mut encoder = &mut exact as &mut [u8];
    encoder.put_byte(1).unwrap();
    encoder.put_slice(&[2, 3]).unwrap();
    assert!(encoder.is_empty());
    assert_eq!(exact, [1, 2, 3]);
}

#[test]
fn array_vec_takes_what_fits_and_stays_as_it_is_at_a_refusal() {
    let mut encoder = ArrayVec::<u8, 4>::new();
    encoder.put_slice(b"ab").unwrap();
    assert_eq!(encoder.put_slice(b"cde"), Err(InsufficientSpace));
    assert_eq!(encoder.as_slice(), b"ab");
    encoder.put_byte(b'c').unwrap();
    encoder.put_byte(b'd').unwrap();
    assert_eq!(encoder.put_byte(b'e'), Err(InsufficientSpace));
    assert_eq!(encoder.put_slice(b""), Ok(()));
    assert_eq!(encoder.as_slice(), b"abcd");
}

#[test]
fn array_string_takes_what_fits_and_stays_as_it_is_at_a_refusal() {
    let mut encoder = ArrayString::<4>::new();
    encoder.put_str("ab").unwrap();
    assert_eq!(encoder.put_str("cde"), Err(InsufficientSpace));
    assert_eq!(encoder.as_str(), "ab");
    assert_eq!(encoder.put_str(""), Ok(()));
    'c'.encode(&mut encoder).unwrap();
    assert_eq!(encoder.as_str(), "abc");
}

#[test]
fn bytes_mut_appends_slices_and_bytes() {
    let mut encoder = BytesMut::new();
    encoder.put_slice(b"ab").unwrap();
    encoder.put_byte(b'c').unwrap();
    encoder.put_str("d").unwrap();
    assert_eq!(&encoder[..], b"abcd");
}

#[test]
fn string_appends_text() {
    let mut encoder = String::from("a");
    encoder.put_str("b\u{e9}").unwrap();
    ('c', "d").encode(&mut encoder).unwrap();
    assert_eq!(encoder, "ab\u{e9}cd");
}

#[test]
fn vec_appends_slices_and_bytes() {
    let mut encoder = vec![9u8];
    encoder.put_slice(b"ab").unwrap();
    encoder.put_byte(b'c').unwrap();
    encoder.put_str("\u{e9}").unwrap();
    assert_eq!(encoder, [9, b'a', b'b', b'c', 0xC3, 0xA9]);
}

#[test]
fn insufficient_space_describes_itself() {
    assert_eq!(
        InsufficientSpace.message(),
        "The provided buffer has no space left for encoding"
    );
    assert_eq!(InsufficientSpace, InsufficientSpace.clone());
    assert_eq!(
        InsufficientSpace.to_string(),
        "The provided buffer has no space left for encoding"
    );
    let error: &dyn std::error::Error = &InsufficientSpace;
    assert!(error.source().is_none());
}
