//! MD5 digests of strings, rendered as uppercase hexadecimal text.

pub mod digest;
pub mod hex;

pub use digest::md5_upper_hex;
pub use hex::upper_hex_of_bytes;
