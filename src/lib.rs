//! Content fingerprinting: XXH3-64 digests of byte buffers, of ordered string
//! lists and of a file's first buffered chunk, rendered as decimal text.

pub mod decimal;
pub mod hasher;
pub mod joined;

pub use hasher::{hash, hash_array, hash_file};
