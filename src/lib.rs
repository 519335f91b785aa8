//! Threshold encryption of messages under a BLS public key, with the
//! byte-reversed wire convention that callers of this library expect.

pub mod bytes;
pub mod crypt;
pub mod scheme;
pub mod slices;

pub use bytes::reverse_bytes;
pub use crypt::{decode_shares, decrypt, encrypt, CryptError};
pub use scheme::PK_SIZE;
