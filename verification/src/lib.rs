//! Verified parsing and decryption logic for MSIXVC / XVD packages.

pub mod bytes;
pub mod guid;
pub mod layout;
pub mod crypt;
pub mod hash_tree;
pub mod tlv;
pub mod ekb;
pub mod parse;
pub mod decimal;
pub mod device;
