//! Big-endian byte decomposition of fixed-width integers and lowercase
//! hexadecimal encoding of byte streams, both as pull-based producers whose
//! behaviour is stated in contracts and proved.

pub mod bytes;
pub mod hex;
pub mod producer;
pub mod slice;

pub use bytes::{Bytes, ToBytes};
pub use hex::{to_hex, ToHex, ToHexIter};
pub use producer::Producer;
pub use slice::SliceBytes;
