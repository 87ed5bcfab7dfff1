use std::borrow::Cow;

use bytes::Bytes;
use bytes::BytesMut;
use encode::encodables::Adapter;
use encode::encodables::NulTerminated;
use encode::encoders::InsufficientSpace;
use encode::Encodable;

const BUF_SIZE: usize = 64;

#[test]
fn alloc_assert_that_boxes_can_be_encoded() {
    let encodable = Box::new(5u8);
    encodable.encode(&mut ()).unwrap();
}

#[test]
fn alloc_assert_that_cows_can_be_encoded() {
    let cow = Cow::Borrowed("hello");
    // The call is fully qualified: with a dot the reference would be the
    // value that is encoded.
    <Cow<'_, _> as Encodable<()>>::encode(&cow, &mut ()).unwrap();
}

#[test]
fn assert_that_vecs_can_be_encoded() {
    let encodable = vec![1, 2, 3, 4, 5];
    encodable.encode(&mut ()).unwrap();
}

#[test]
fn alloc_assert_that_strings_can_be_encoded() {
    let encodable = String::from("hello");
    encodable.encode(&mut ()).unwrap();
}

#[test]
fn alloc_assert_that_cstrings_can_be_encoded() {
    let owned = Vec::from(*b"hello\0");
    let encodable = NulTerminated::from_bytes_with_nul(&owned).unwrap();
    encodable.encode(&mut ()).unwrap();
}

#[test]
fn assert_that_bytes_can_be_encoded() {
    let expected = b"\x01\x02\x03";
    let encodable = Bytes::from_static(&[1, 2, 3]);

    let mut buf = [0u8; BUF_SIZE];
    let mut encoder = &mut buf as &mut [u8];
    encodable.encode(&mut encoder).unwrap();
    let written = BUF_SIZE - encoder.len();
    let result = &buf[..written];

    assert_eq!(expected, result);
}

#[test]
fn assert_that_bytes_mut_can_be_encoded() {
    let expected = b"\x01\x02\x03";
    let mut encodable = BytesMut::new();
    encodable.extend_from_slice(&[1, 2, 3]);

    let mut buf = [0u8; BUF_SIZE];
    let mut encoder = &mut buf as &mut [u8];
    encodable.encode(&mut encoder).unwrap();
    let written = BUF_SIZE - encoder.len();
    let result = &buf[..written];

    assert_eq!(expected, result);
}

/// Hands the pieces of a rendered text to `encoder` as the formatting
/// machinery does: piece by piece, until one is refused.
fn render<E: encode::StrEncoder>(pieces: &[&str], encoder: &mut E) -> Result<(), E::Error> {
    let mut adapter = Adapter::new(encoder);
    let mut rendered = Ok(());
    for piece in pieces {
        rendered = adapter.write_piece(piece);
        if rendered.is_err() {
            break;
        }
    }
    assert_eq!(rendered.is_err(), adapter.has_error());
    adapter.finish(rendered)
}

#[test]
fn fmt_assert_that_arguments_can_be_encoded() {
    let expected = b"Hello world, I present you with a number: 42";

    let mut buf = [0u8; BUF_SIZE];
    let mut encoder = &mut buf as &mut [u8];
    render(
        &["Hello ", "world", ", I present you with a number: ", "42"],
        &mut encoder,
    )
    .unwrap();
    let written = BUF_SIZE - encoder.len();
    let result = &buf[..written];

    assert_eq!(expected, result);

    render(&["Hello, ", "world", "!"], &mut ()).unwrap();
}

#[test]
fn fmt_assert_that_arguments_report_encoder_errors() {
    let mut buf = [0u8; 0];
    let mut encoder = &mut buf as &mut [u8];
    render(
        &["Hello ", "world", ", I present you with a number: ", "42"],
        &mut encoder,
    )
    .unwrap_err();

    let mut encoder = &mut [0u8; 0] as &mut [u8];
    let result = render(&["Hello, ", "world", "!"], &mut encoder);
    assert_eq!(result, Err(InsufficientSpace));
}

#[test]
fn adapter_stops_at_the_piece_that_is_refused() {
    let mut buf = [0u8; 8];
    let mut encoder = &mut buf as &mut [u8];
    let mut adapter = Adapter::new(&mut encoder);
    assert!(adapter.write_piece("Hello ").is_ok());
    assert!(!adapter.has_error());
    assert!(adapter.write_piece("world").is_err());
    assert!(adapter.has_error());
    assert_eq!(adapter.finish(Err(core::fmt::Error)), Err(InsufficientSpace));
    assert_eq!(&buf[..6], b"Hello ");
}

#[test]
fn adapter_is_a_writer_of_fmt() {
    let mut text = String::new();
    let mut adapter = Adapter::new(&mut text);
    core::fmt::Write::write_str(&mut adapter, "Hello").unwrap();
    core::fmt::Write::write_char(&mut adapter, '!').unwrap();
    adapter.finish(Ok(())).unwrap();
    assert_eq!(text, "Hello!");
}

#[test]
fn primitives_assert_that_chars_can_be_encoded() {
    let expected = b"a";
    let encodable = 'a';

    let mut buf = [0u8; BUF_SIZE];
    let mut encoder = &mut buf as &mut [u8];
    encodable.encode(&mut encoder).unwrap();
    let written = BUF_SIZE - encoder.len();
    let result = &buf[..written];

    assert_eq!(expected, result);
}

#[test]
fn primitives_assert_that_unsigned_bytes_can_be_encoded() {
    let expected = b"\xFF";
    let encodable = u8::MAX;

    let mut buf = [0u8; BUF_SIZE];
    let mut encoder = &mut buf as &mut [u8];
    encodable.encode(&mut encoder).unwrap();
    let written = BUF_SIZE - encoder.len();
    let result = &buf[..written];

    assert_eq!(expected, result);
}

#[test]
fn primitives_assert_that_signed_bytes_can_be_encoded() {
    let expected = b"\x80";
    let encodable = i8::MIN;

    let mut buf = [0u8; BUF_SIZE];
    let mut encoder = &mut buf as &mut [u8];
    encodable.encode(&mut encoder).unwrap();
    let written = BUF_SIZE - encoder.len();
    let result = &buf[..written];

    assert_eq!(expected, result);
}

#[test]
fn primitives_assert_that_true_can_be_encoded() {
    let expected = b"\x01";
    let encodable = true;

    let mut buf = [0u8; BUF_SIZE];
    let mut encoder = &mut buf as &mut [u8];
    encodable.encode(&mut encoder).unwrap();
    let written = BUF_SIZE - encoder.len();
    let result = &buf[..written];

    assert_eq!(expected, result);
}

#[test]
fn primitives_assert_that_false_can_be_encoded() {
    let expected = b"\x00";
    let encodable = false;

    let mut buf = [0u8; BUF_SIZE];
    let mut encoder = &mut buf as &mut [u8];
    encodable.encode(&mut encoder).unwrap();
    let written = BUF_SIZE - encoder.len();
    let result = &buf[..written];

    assert_eq!(expected, result);
}

#[test]
fn primitives_assert_that_references_to_encodables_can_be_encoded() {
    let expected = b"\x00";
    let encodable = &false;

    let mut buf = [0u8; BUF_SIZE];
    let mut encoder = &mut buf as &mut [u8];
    encodable.encode(&mut encoder).unwrap();
    let written = BUF_SIZE - encoder.len();
    let result = &buf[..written];

    assert_eq!(expected, result);
}

#[test]
fn assert_that_some_option_can_be_encoded() {
    let expected = b"\x01";
    let encodable = Some(1u8);

    let mut buf = [0u8; BUF_SIZE];
    let mut encoder = &mut buf as &mut [u8];
    encodable.encode(&mut encoder).unwrap();
    let written = BUF_SIZE - encoder.len();
    let result = &buf[..written];

    assert_eq!(expected, result);
}

#[test]
fn assert_that_none_encodes_nothing() {
    let expected = b"";
    let encodable = None::<u8>;

    let mut buf = [0u8; BUF_SIZE];
    let mut encoder = &mut buf as &mut [u8];
    encodable.encode(&mut encoder).unwrap();
    let written = BUF_SIZE - encoder.len();
    let result = &buf[..written];

    assert_eq!(expected, result);
}

#[test]
fn assert_that_ok_result_can_be_encoded() {
    let expected = b"\x01";
    let encodable = Ok(1u8);

    let mut buf = [0u8; BUF_SIZE];
    let mut encoder = &mut buf as &mut [u8];
    encodable.encode(&mut encoder).unwrap();
    let written = BUF_SIZE - encoder.len();
    let result = &buf[..written];

    assert_eq!(expected, result);
}

#[test]
fn assert_that_err_result_returns_the_error() {
    let encodable = Err::<u8, _>(InsufficientSpace);

    let mut buf = [0u8; BUF_SIZE];
    let mut encoder = &mut buf as &mut [u8];
    encodable.encode(&mut encoder).unwrap_err();
}

#[test]
fn assert_that_arrays_can_be_encoded() {
    let expected = b"\x01\x02\x03";
    let encodable: [u8; 3] = [1, 2, 3];

    let mut buf = [0u8; BUF_SIZE];
    let mut encoder = &mut buf as &mut [u8];
    encodable.encode(&mut encoder).unwrap();
    let written = BUF_SIZE - encoder.len();
    let result = &buf[..written];

    assert_eq!(expected, result);
}

#[test]
fn assert_that_slices_can_be_encoded() {
    let expected = b"\x01\x02\x03";
    let encodable: &[u8] = &[1, 2, 3];

    let mut buf = [0u8; BUF_SIZE];
    let mut encoder = &mut buf as &mut [u8];
    encodable.encode(&mut encoder).unwrap();
    let written = BUF_SIZE - encoder.len();
    let result = &buf[..written];

    assert_eq!(expected, result);
}

#[test]
fn assert_that_strs_can_be_encoded() {
    let expected = b"Hello world!";
    let encodable = "Hello world!";

    let mut buf = [0u8; BUF_SIZE];
    let mut encoder = &mut buf as &mut [u8];
    encodable.encode(&mut encoder).unwrap();
    let written = BUF_SIZE - encoder.len();
    let result = &buf[..written];

    assert_eq!(expected, result);
}

#[test]
fn assert_that_cstrs_can_be_encoded() {
    let expected = b"Hello world!\0";
    let encodable = NulTerminated::from_bytes_with_nul(b"Hello world!\0").unwrap();

    let mut buf = [0u8; BUF_SIZE];
    let mut encoder = &mut buf as &mut [u8];
    encodable.encode(&mut encoder).unwrap();
    let written = BUF_SIZE - encoder.len();
    let result = &buf[..written];

    assert_eq!(expected, result);
}

#[test]
fn assert_that_tuples_can_be_encoded() {
    let encodable = ("hello", "world");
    encodable.encode(&mut ()).unwrap();
}

#[test]
fn assert_that_unit_can_be_encoded() {
    let encodable = ();
    encodable.encode(&mut ()).unwrap();
}

#[test]
fn nul_terminated_takes_only_bytes_that_end_in_their_only_nul() {
    assert!(NulTerminated::from_bytes_with_nul(b"").is_none());
    assert!(NulTerminated::from_bytes_with_nul(b"abc").is_none());
    assert!(NulTerminated::from_bytes_with_nul(b"a\0c\0").is_none());
    assert!(NulTerminated::from_bytes_with_nul(b"\0\0").is_none());
    let empty = NulTerminated::from_bytes_with_nul(b"\0").unwrap();
    assert!(empty.is_empty());
    assert_eq!(empty.to_bytes_with_nul(), b"\0");
    let text = NulTerminated::from_bytes_with_nul(b"abc\0").unwrap();
    assert!(!text.is_empty());
    assert_eq!(text.to_bytes_with_nul(), b"abc\0");
}

#[test]
fn chars_of_every_width_are_written_as_utf8() {
    for (c, expected) in [
        ('a', &b"a"[..]),
        ('\u{e9}', &[0xC3, 0xA9][..]),
        ('\u{20ac}', &[0xE2, 0x82, 0xAC][..]),
        ('\u{1f600}', &[0xF0, 0x9F, 0x98, 0x80][..]),
    ] {
        let mut buf = Vec::new();
        c.encode(&mut buf).unwrap();
        assert_eq!(buf, expected);
    }
}

#[test]
fn owned_and_borrowed_values_write_alike() {
    let mut owned = Vec::new();
    Cow::<[u8]>::Owned(vec![1, 2, 3]).encode(&mut owned).unwrap();
    let mut borrowed = Vec::new();
    Cow::<[u8]>::Borrowed(&[1, 2, 3]).encode(&mut borrowed).unwrap();
    assert_eq!(owned, [1, 2, 3]);
    assert_eq!(owned, borrowed);

    let mut text = String::new();
    Cow::<str>::Owned(String::from("caf\u{e9}")).encode(&mut text).unwrap();
    assert_eq!(text, "caf\u{e9}");

    let mut byte = Vec::new();
    <Cow<'_, u8> as Encodable<Vec<u8>>>::encode(&Cow::Owned(7u8), &mut byte).unwrap();
    <Cow<'_, u8> as Encodable<Vec<u8>>>::encode(&Cow::Borrowed(&8u8), &mut byte).unwrap();
    assert_eq!(byte, [7, 8]);

    let mut boxed = Vec::new();
    Box::new((1u8, "x")).encode(&mut boxed).unwrap();
    assert_eq!(boxed, [1, b'x']);
}

#[test]
fn tuples_write_their_members_in_order_and_stop_at_the_first_failure() {
    let mut buf = Vec::new();
    (1u8, 2u8, 3u8, 4u8, 5u8, 6u8, 7u8, 8u8, 9u8, 10u8, 11u8, 12u8).encode(&mut buf).unwrap();
    assert_eq!(buf, [1, 2, 3, 4, 5, 6, 7, 8, 9, 10, 11, 12]);

    let mut single = Vec::new();
    (9u8,).encode(&mut single).unwrap();
    assert_eq!(single, [9]);

    let mut storage = [0u8; 3];
    let mut encoder = &mut storage as &mut [u8];
    let res = ("ab", "cd", "e").encode(&mut encoder);
    assert_eq!(res, Err(InsufficientSpace));
    assert_eq!(&storage[..2], b"ab");
    assert_eq!(storage[2], 0);
}
