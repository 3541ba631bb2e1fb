//! Additional types for parsing with a [`BytesReader`](super::BytesReader).

use crate::bytes::{
    le_nat, lemma_le_nat_bound, lemma_le_nat_concat, lemma_pow256_values, pow256, read_le,
};
use crate::decimal::{decimal, push_decimal};
use core::cmp::Ordering;
use vstd::prelude::*;
use vstd::std_specs::cmp::PartialOrdSpecImpl;
use vstd::string::*;

verus! {

/// A version number that consists of major, minor, patch, and build components.
#[derive(Clone, Copy, PartialEq, Eq, Structural, Ord)]
pub struct Version {
    pub major: u16,
    pub minor: u16,
    pub patch: u16,
    pub build: u16,
}

/// The components of a version as one number, most significant first.
pub open spec fn version_key(v: Version) -> int {
    v.major * 0x1_0000_0000_0000 + v.minor * 0x1_0000_0000 + v.patch * 0x1_0000 + v.build
}

/// The version that `b` holds: four little-endian `u16`, least significant component first.
pub open spec fn version_from_le(b: Seq<u8>) -> Version {
    Version {
        build: le_nat(b.subrange(0, 2)) as u16,
        patch: le_nat(b.subrange(2, 4)) as u16,
        minor: le_nat(b.subrange(4, 6)) as u16,
        major: le_nat(b.subrange(6, 8)) as u16,
    }
}

/// The text of a version: its components in decimal, major first, separated by dots.
pub open spec fn version_text(v: Version) -> Seq<char> {
    decimal(v.major as nat) + seq!['.'] + decimal(v.minor as nat) + seq!['.'] + decimal(
        v.patch as nat,
    ) + seq!['.'] + decimal(v.build as nat)
}

impl Version {
    /// Creates a [`Version`] from a byte array.
    ///
    /// The input is expected as it appears in the XVD header, where the least significant
    /// version component comes first: `[build, patch, minor, major]`, and every component
    /// is stored as a little-endian `u16`.
    pub fn from_bytes(bytes: [u8; 8]) -> (v: Self)
        ensures
            v == version_from_le(bytes@),
    {
        proof {
            lemma_pow256_values();
        }
        let b = bytes.as_slice();
        Self {
            build: read_le(b, 0, 2) as u16,
            patch: read_le(b, 2, 2) as u16,
            minor: read_le(b, 4, 2) as u16,
            major: read_le(b, 6, 2) as u16,
        }
    }

    /// The text of the version: `major.minor.patch.build`.
    pub fn to_string(&self) -> (s: String)
        ensures
            s@ == version_text(*self),
    {
        let mut s = String::new();
        push_decimal(&mut s, self.major);
        proof {
            reveal_strlit(".");
        }
        s.append(".");
        push_decimal(&mut s, self.minor);
        s.append(".");
        push_decimal(&mut s, self.patch);
        s.append(".");
        push_decimal(&mut s, self.build);
        s
    }
}

/// Reading the components of a version from its bytes, least significant first, gives the
/// little-endian number of the eight bytes: comparing versions read from bytes is comparing
/// those numbers.
pub proof fn lemma_version_key_from_le(b: Seq<u8>)
    requires
        b.len() == 8,
    ensures
        version_key(version_from_le(b)) == le_nat(b),
{
    lemma_pow256_values();
    let b0 = b.subrange(0, 2);
    let b1 = b.subrange(2, 4);
    let b2 = b.subrange(4, 6);
    let b3 = b.subrange(6, 8);
    lemma_le_nat_bound(b0);
    lemma_le_nat_bound(b1);
    lemma_le_nat_bound(b2);
    lemma_le_nat_bound(b3);
    lemma_le_nat_concat(b2, b3);
    lemma_le_nat_concat(b1, b2 + b3);
    lemma_le_nat_concat(b0, b1 + (b2 + b3));
    assert(b =~= b0 + (b1 + (b2 + b3)));
    let l0 = le_nat(b0);
    let l1 = le_nat(b1);
    let l2 = le_nat(b2);
    let l3 = le_nat(b3);
    assert(pow256(b0.len()) == 0x1_0000 && pow256(b1.len()) == 0x1_0000 && pow256(b2.len())
        == 0x1_0000);
    assert(le_nat(b) == l0 + 0x1_0000 * (l1 + 0x1_0000 * (l2 + 0x1_0000 * l3)));
    let v = version_from_le(b);
    assert(v.build == l0 && v.patch == l1 && v.minor == l2 && v.major == l3);
    assert(l0 + 0x1_0000 * (l1 + 0x1_0000 * (l2 + 0x1_0000 * l3)) == l3 * 0x1_0000_0000_0000 + l2
        * 0x1_0000_0000 + l1 * 0x1_0000 + l0) by (nonlinear_arith);
}

/// The order of versions: by major, then minor, then patch, then build.
pub open spec fn version_order(a: Version, b: Version) -> Ordering {
    if a.major != b.major {
        if a.major < b.major {
            Ordering::Less
        } else {
            Ordering::Greater
        }
    } else if a.minor != b.minor {
        if a.minor < b.minor {
            Ordering::Less
        } else {
            Ordering::Greater
        }
    } else if a.patch != b.patch {
        if a.patch < b.patch {
            Ordering::Less
        } else {
            Ordering::Greater
        }
    } else if a.build != b.build {
        if a.build < b.build {
            Ordering::Less
        } else {
            Ordering::Greater
        }
    } else {
        Ordering::Equal
    }
}

/// Compares two versions: by major, then minor, then patch, then build.
pub fn compare_versions(a: &Version, b: &Version) -> (r: Ordering)
    ensures
        r == version_order(*a, *b),
{
    if a.major != b.major {
        if a.major < b.major {
            Ordering::Less
        } else {
            Ordering::Greater
        }
    } else if a.minor != b.minor {
        if a.minor < b.minor {
            Ordering::Less
        } else {
            Ordering::Greater
        }
    } else if a.patch != b.patch {
        if a.patch < b.patch {
            Ordering::Less
        } else {
            Ordering::Greater
        }
    } else if a.build != b.build {
        if a.build < b.build {
            Ordering::Less
        } else {
            Ordering::Greater
        }
    } else {
        Ordering::Equal
    }
}

impl PartialOrd for Version {
    fn partial_cmp(&self, other: &Self) -> (r: Option<Ordering>) {
        Some(compare_versions(self, other))
    }
}

impl PartialOrdSpecImpl for Version {
    open spec fn obeys_partial_cmp_spec() -> bool {
        true
    }

    open spec fn partial_cmp_spec(&self, other: &Self) -> Option<Ordering> {
        Some(version_order(*self, *other))
    }
}

/// The order of versions is the order of their components taken as one number.
pub proof fn lemma_version_order_by_key(a: Version, b: Version)
    ensures
        (version_order(a, b) == Ordering::Less) <==> version_key(a) < version_key(b),
        (version_order(a, b) == Ordering::Equal) <==> a == b,
        (version_order(a, b) == Ordering::Greater) <==> version_key(a) > version_key(b),
{
}

/// Versions form a total order: exactly one of less, equal, greater holds, and swapping
/// the operands swaps less and greater.
pub proof fn lemma_version_order_antisymmetric(a: Version, b: Version)
    ensures
        (version_order(a, b) == Ordering::Less) <==> (version_order(b, a) == Ordering::Greater),
        (version_order(a, b) == Ordering::Equal) <==> (version_order(b, a) == Ordering::Equal),
{
}

/// The order of versions is transitive.
pub proof fn lemma_version_order_transitive(a: Version, b: Version, c: Version)
    requires
        version_order(a, b) == Ordering::Less,
        version_order(b, c) == Ordering::Less,
    ensures
        version_order(a, c) == Ordering::Less,
{
}

} // verus!
