//! Reads of common fields from a [`BytesReader`].

use crate::bytes::{le_nat, lemma_pow256_values, read_le};
use crate::guid::{guid_swap_fields, uuid_from_bytes_le};
use crate::parse::BytesReader;
use vstd::prelude::*;

verus! {

/// Number of 100 ns intervals between the FILETIME epoch (1601-01-01 UTC) and the Unix
/// epoch (1970-01-01 UTC).
pub const FILETIME_TO_UNIX: i64 = 116_444_736_000_000_000;

/// The nanoseconds since the Unix epoch of a FILETIME (100 ns intervals since 1601-01-01
/// UTC).
pub open spec fn spec_filetime_nanos(filetime: i64) -> int {
    (filetime - FILETIME_TO_UNIX) * 100
}

/// Whether a FILETIME converts to Unix nanoseconds without overflowing an `i64`.
pub open spec fn filetime_in_range(filetime: i64) -> bool {
    i64::MIN <= spec_filetime_nanos(filetime) <= i64::MAX
}

/// Converts a FILETIME to nanoseconds since the Unix epoch.
pub fn filetime_to_unix_nanos(filetime: i64) -> (n: i64)
    requires
        filetime_in_range(filetime),
    ensures
        n == spec_filetime_nanos(filetime),
{
    (filetime - FILETIME_TO_UNIX) * 100
}

impl<'a> BytesReader<'a> {
    /// Reads a little-endian `u8`; returns it with a reader over the rest.
    pub fn u8_le(self) -> (r: (u8, BytesReader<'a>))
        requires
            self@.len() >= 1,
        ensures
            r.0 == le_nat(self@.subrange(0, 1)) as u8,
            r.1@ == self@.subrange(1, self@.len() as int),
    {
        let (bytes, rest) = self.array_ref(1);
        proof {
            lemma_pow256_values();
            assert(bytes@.subrange(0, 1) =~= self@.subrange(0, 1));
        }
        (read_le(bytes, 0, 1) as u8, rest)
    }

    /// Reads a little-endian `i8`; returns it with a reader over the rest.
    pub fn i8_le(self) -> (r: (i8, BytesReader<'a>))
        requires
            self@.len() >= 1,
        ensures
            r.0 == le_nat(self@.subrange(0, 1)) as i8,
            r.1@ == self@.subrange(1, self@.len() as int),
    {
        let (bytes, rest) = self.array_ref(1);
        proof {
            lemma_pow256_values();
            assert(bytes@.subrange(0, 1) =~= self@.subrange(0, 1));
        }
        (read_le(bytes, 0, 1) as i8, rest)
    }

    /// Reads a little-endian `u16`; returns it with a reader over the rest.
    pub fn u16_le(self) -> (r: (u16, BytesReader<'a>))
        requires
            self@.len() >= 2,
        ensures
            r.0 == le_nat(self@.subrange(0, 2)) as u16,
            r.1@ == self@.subrange(2, self@.len() as int),
    {
        let (bytes, rest) = self.array_ref(2);
        proof {
            lemma_pow256_values();
            assert(bytes@.subrange(0, 2) =~= self@.subrange(0, 2));
        }
        (read_le(bytes, 0, 2) as u16, rest)
    }

    /// Reads a little-endian `i16`; returns it with a reader over the rest.
    pub fn i16_le(self) -> (r: (i16, BytesReader<'a>))
        requires
            self@.len() >= 2,
        ensures
            r.0 == le_nat(self@.subrange(0, 2)) as i16,
            r.1@ == self@.subrange(2, self@.len() as int),
    {
        let (bytes, rest) = self.array_ref(2);
        proof {
            lemma_pow256_values();
            assert(bytes@.subrange(0, 2) =~= self@.subrange(0, 2));
        }
        (read_le(bytes, 0, 2) as i16, rest)
    }

    /// Reads a little-endian `u32`; returns it with a reader over the rest.
    pub fn u32_le(self) -> (r: (u32, BytesReader<'a>))
        requires
            self@.len() >= 4,
        ensures
            r.0 == le_nat(self@.subrange(0, 4)) as u32,
            r.1@ == self@.subrange(4, self@.len() as int),
    {
        let (bytes, rest) = self.array_ref(4);
        proof {
            lemma_pow256_values();
            assert(bytes@.subrange(0, 4) =~= self@.subrange(0, 4));
        }
        (read_le(bytes, 0, 4) as u32, rest)
    }

    /// Reads a little-endian `i32`; returns it with a reader over the rest.
    pub fn i32_le(self) -> (r: (i32, BytesReader<'a>))
        requires
            self@.len() >= 4,
        ensures
            r.0 == le_nat(self@.subrange(0, 4)) as i32,
            r.1@ == self@.subrange(4, self@.len() as int),
    {
        let (bytes, rest) = self.array_ref(4);
        proof {
            lemma_pow256_values();
            assert(bytes@.subrange(0, 4) =~= self@.subrange(0, 4));
        }
        (read_le(bytes, 0, 4) as i32, rest)
    }

    /// Reads a little-endian `u64`; returns it with a reader over the rest.
    pub fn u64_le(self) -> (r: (u64, BytesReader<'a>))
        requires
            self@.len() >= 8,
        ensures
            r.0 == le_nat(self@.subrange(0, 8)) as u64,
            r.1@ == self@.subrange(8, self@.len() as int),
    {
        let (bytes, rest) = self.array_ref(8);
        proof {
            lemma_pow256_values();
            assert(bytes@.subrange(0, 8) =~= self@.subrange(0, 8));
        }
        (read_le(bytes, 0, 8) as u64, rest)
    }

    /// Reads a little-endian `i64`; returns it with a reader over the rest.
    pub fn i64_le(self) -> (r: (i64, BytesReader<'a>))
        requires
            self@.len() >= 8,
        ensures
            r.0 == le_nat(self@.subrange(0, 8)) as i64,
            r.1@ == self@.subrange(8, self@.len() as int),
    {
        let (bytes, rest) = self.array_ref(8);
        proof {
            lemma_pow256_values();
            assert(bytes@.subrange(0, 8) =~= self@.subrange(0, 8));
        }
        (read_le(bytes, 0, 8) as i64, rest)
    }

    /// Reads a GUID stored in the little-endian field order; returns its RFC 4122 bytes
    /// with a reader over the rest.
    pub fn uuid(self) -> (r: ([u8; 16], BytesReader<'a>))
        requires
            self@.len() >= 16,
        ensures
            r.0@ == guid_swap_fields(self@.subrange(0, 16)),
            r.1@ == self@.subrange(16, self@.len() as int),
    {
        let (bytes, rest) = self.array_ref(16);
        let mut b = [0u8; 16];
        let mut i: usize = 0;
        while i < 16
            invariant
                i <= 16,
                b@.len() == 16,
                bytes@.len() == 16,
                forall|k: int| 0 <= k < i ==> b@[k] == bytes@[k],
            decreases 16 - i,
        {
            b[i] = bytes[i];
            i = i + 1;
        }
        assert(b@ =~= self@.subrange(0, 16));
        (uuid_from_bytes_le(b), rest)
    }

    /// Reads a little-endian FILETIME; returns the point in time it denotes, in
    /// nanoseconds since the Unix epoch, with a reader over the rest.
    pub fn filetime(self) -> (r: (i64, BytesReader<'a>))
        requires
            self@.len() >= 8,
            filetime_in_range(le_nat(self@.subrange(0, 8)) as i64),
        ensures
            r.0 == spec_filetime_nanos(le_nat(self@.subrange(0, 8)) as i64),
            r.1@ == self@.subrange(8, self@.len() as int),
    {
        let (v, rest) = self.i64_le();
        (filetime_to_unix_nanos(v), rest)
    }

    /// Reads `expected.len()` bytes and checks them against `expected`: on a match, returns
    /// a reader over the rest; otherwise returns the bytes read.
    pub fn magic(self, expected: &[u8]) -> (r: Result<BytesReader<'a>, &'a [u8]>)
        requires
            self@.len() >= expected@.len(),
        ensures
            self@.subrange(0, expected@.len() as int) == expected@ ==> (r matches Ok(rest)
                && rest@ == self@.subrange(expected@.len() as int, self@.len() as int)),
            self@.subrange(0, expected@.len() as int) != expected@ ==> (r matches Err(m) && m@
                == self@.subrange(0, expected@.len() as int)),
    {
        let n = expected.len();
        let (magic, rest) = self.array_ref(n);
        let mut i: usize = 0;
        while i < n
            invariant
                i <= n,
                n == expected@.len(),
                magic@ == self@.subrange(0, n as int),
                self@.len() >= n,
                rest@ == self@.subrange(n as int, self@.len() as int),
                forall|k: int| 0 <= k < i ==> magic@[k] == expected@[k],
            decreases n - i,
        {
            if magic[i] != expected[i] {
                assert(magic@ != expected@) by {
                    assert(magic@[i as int] != expected@[i as int]);
                }
                return Err(magic);
            }
            i = i + 1;
        }
        assert(magic@ =~= expected@);
        Ok(rest)
    }
}

} // verus!
