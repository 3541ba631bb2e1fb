# msixvc

Verified parsing and decryption logic for MSIXVC / XVD packages.

- `src/` is the library, verified with Verus:
  - `crypt/`: per-page tweaks and XTS-AES page transforms (`xts`), region decryptors
    (`region`), and the page-decrypting readers over a whole file (`decryptor_reader`),
    over one region (`region_reader`) and over a section with random access
    (`section_reader`). The readers decide what to read and what to return; the caller
    performs the reads.
  - `hash_tree`: pages collected from a reader and the stream of level-0 hash entries
    checked against the level-1 hashes.
  - `parse/`: `BytesReader` and the `BinaryParse` / `BinaryTryParse` traits, endian-aware
    integers, field readers and `Version`.
  - `tlv`, `ekb`: tag-length-value records and EKB blobs.
  - `bytes`, `guid`, `decimal`, `layout`, `device`: encodings, GUID byte orders, decimal
    text, layout constants and device-credential decisions.
- `app/` holds the I/O around it: `std::io` and `tokio` readers, `thiserror` errors,
  `Display` of versions and `chrono` times.
- `tests/` exercises the library.
