//! Values that are built from other values.
//!
//! | Type | What it writes |
//! |------|----------------|
//! | [`BE`] | a number, the most significant byte first |
//! | [`LE`] | a number, the least significant byte first |
//! | [`Flags`] | eight flags as one byte |
//! | [`Cond`] | a value, if a predicate holds of it |
//! | [`FromError`] | a value, with its errors converted |
//! | [`LengthPrefix`] | the length of a value's encoded form, then the value |
//! | [`Iter`] | the items of a sequence |
//! | [`Separated`] | the items of a sequence, with a separator between them |
mod be;
pub mod byte_order;
mod cond;
mod flags;
mod from_error;
mod iter;
mod le;
mod length_prefix;
mod separated;

pub use be::BE;
pub use cond::Cond;
pub use flags::binary;
pub use flags::digits;
pub use flags::power_of_2;
pub use flags::Flags;
pub use from_error::converts;
pub use from_error::FromError;
pub use iter::all_well_formed;
pub use iter::any_surfaces;
pub use iter::scripts_of;
pub use iter::Iter;
pub use le::LE;
pub use length_prefix::measured;
pub use length_prefix::LengthPrefix;
pub use separated::joined;
pub use separated::members_before;
pub use separated::part_surfaces;
pub use separated::Separated;
