//! XTS-AES decryption of XVC regions and readers that decrypt pages on the fly.

pub mod xts;
pub mod region;
pub mod seek;
pub mod decryptor_reader;
pub mod region_reader;
pub mod section_reader;
