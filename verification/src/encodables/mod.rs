//! The values that can be written as they are.
//!
//! | Type | What it writes |
//! |------|----------------|
//! | `u8`, `i8` | the byte |
//! | `bool` | the byte 1 or 0 |
//! | `char`, `str`, `String` | the UTF-8 form |
//! | `[u8]`, `[u8; N]`, `Vec<u8>` | the bytes |
//! | `bytes::Bytes`, `bytes::BytesMut` | the bytes |
//! | [`NulTerminated`] | the bytes, the byte 0 at their end included |
//! | `&T`, `Box<T>`, `Cow<T>` | what `T` writes |
//! | `Option<T>` | what `T` writes, or nothing |
//! | `Result<T, T::Error>` | what `T` writes, or the error |
//! | `()` and tuples of up to twelve members | what the members write, in order |
//!
//! [`Adapter`] is the writer through which text is rendered into a
//! destination piece by piece.
mod buffers;
mod fmt;
mod nul_terminated;
mod option_result;
mod owned;
mod primitives;
mod slices;
mod tuples;

pub use buffers::bytes_contents;
pub use fmt::Adapter;
pub use nul_terminated::terminated;
pub use nul_terminated::NulTerminated;
