//! Solidity `bytes` and `bytesN` values and their contract ABI encoding.

pub mod encoding;
pub mod error;
pub mod bytes;
pub mod fixed_bytes;
pub mod abi_type;

pub use abi_type::AbiType;
pub use bytes::{Bytes, BytesSolType};
pub use error::DecodeError;
pub use fixed_bytes::FixedBytes;
