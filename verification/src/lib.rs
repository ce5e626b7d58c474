//! Fixed-capacity bit arrays.
//!
//! A [`Bitmap`] holds a compile-time number of bits in the smallest storage
//! that fits them: a single `bool` for one bit, an unsigned integer for up to
//! 128 bits, and a fixed array of `u128` words for larger sizes up to 1024
//! bits. The size is selected through a marker type implementing [`Bits`],
//! which ties the size to its storage representation and to the primitive
//! bit operations over it.

pub mod bitseq;
pub mod words;
pub mod types;
pub mod bitmap;
pub mod laws;

pub use bitmap::Bitmap;
pub use bitmap::Iter;
pub use types::Bits;
pub use types::{U1, U8, U10, U16, U32, U64, U128, U256, U384, U512, U640, U768, U896, U1024};
