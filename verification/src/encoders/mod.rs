//! Destinations for encoded data.
//!
//! | Type | What a write does |
//! |------|-------------------|
//! | `()` | nothing: every write is taken and dropped |
//! | [`SizeEncoder`] | counts the bytes |
//! | `&mut [u8]` | fills the slice from its start and fails once it is full |
//! | `Vec<u8>` | appends to the vector |
//! | `String` | appends to the string |
//! | `bytes::BytesMut` | appends to the buffer |
//! | `arrayvec::ArrayVec<u8, N>` | appends to the vector and fails once it is full |
//! | `arrayvec::ArrayString<N>` | appends to the string and fails once it is full |
//! | `core::fmt::Formatter` | hands the text on to the formatter |
mod array_vec;
mod bytes_mut;
mod errors;
mod formatter;
mod growable;
mod size;
mod slices;
mod unit;

pub use array_vec::lemma_array_vec_without_room_stopped;
pub use array_vec::lemma_array_vec_without_room_took;
pub use bytes_mut::bytes_mut_contents;
pub use errors::InsufficientSpace;
pub use growable::lemma_vec_took;
pub use size::counted;
pub use size::lemma_counter_took;
pub use size::SizeEncoder;
pub use slices::lemma_slice_stopped;
pub use slices::lemma_slice_took;
pub use slices::room;
