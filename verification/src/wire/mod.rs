//! The payload encoding.
//!
//! A payload is a tree of chunks:
//!
//! ```text
//! [padding to the pointer width] [orig: usize] [size: usize] [content]
//! ```
//!
//! `size` is the length of the whole chunk, header included, and of every
//! chunk nested behind it. So it says how long the content is only where
//! nothing is nested: a string of characters or bytes. The content of any
//! other chunk is a C structure, whose length is known beforehand.
//!
//! A pointer in a structure is zero, or the number of an object whose chunk
//! follows. A list is a chain of such pointers, without a length: it ends at
//! the first zero.

pub mod abi;
pub mod bytes;
pub mod cursor;
pub mod decode;
pub mod encode;
pub mod layout;
pub mod locality;
pub mod meaning;
pub mod order;
pub mod pod;
pub mod raw;
pub mod round_trip;
pub mod sent;
pub mod stored;

pub use decode::{decode_hardware, decode_interfaces, decode_neighbor_change};
pub use encode::{encode_interface_name_request, encode_set_port_description_request};
