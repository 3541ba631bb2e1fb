//! Endian-aware integer parsers implementing [`BinaryParse`].
//!
//! [`Le<T>`] and [`Be<T>`] are zero-sized marker types that implement [`BinaryParse`] for
//! every multi-byte primitive integer, parsing `T` from its little-endian or big-endian
//! representation, respectively.

use crate::bytes::{
    be_nat, le_bytes, le_nat, lemma_be_nat_reverse, lemma_le_nat_le_bytes, lemma_pow256_values,
    read_be, read_le,
};
use crate::parse::{BinaryParse, BytesReader};
use core::marker::PhantomData;
use vstd::prelude::*;

pub mod big_endian;
pub mod little_endian;

verus! {

/// Marker type for parsing little-endian integers through [`BinaryParse`].
pub struct Le<T>(PhantomData<T>);

/// Marker type for parsing big-endian integers through [`BinaryParse`].
pub struct Be<T>(PhantomData<T>);

impl BinaryParse for Le<u16> {
    type Output = u16;

    open spec fn spec_size() -> nat {
        2
    }

    open spec fn spec_parse(bytes: Seq<u8>) -> u16 {
        le_nat(bytes) as u16
    }

    fn size() -> (n: usize) {
        2
    }

    #[inline]
    fn parse<'a>(r: BytesReader<'a>) -> (res: (u16, BytesReader<'a>)) {
        let (bytes, r2) = r.array_ref(2);
        proof {
            lemma_pow256_values();
            assert(bytes@.subrange(0, 2) =~= r@);
        }
        (read_le(bytes, 0, 2) as u16, r2)
    }
}

impl BinaryParse for Le<i16> {
    type Output = i16;

    open spec fn spec_size() -> nat {
        2
    }

    open spec fn spec_parse(bytes: Seq<u8>) -> i16 {
        le_nat(bytes) as i16
    }

    fn size() -> (n: usize) {
        2
    }

    #[inline]
    fn parse<'a>(r: BytesReader<'a>) -> (res: (i16, BytesReader<'a>)) {
        let (bytes, r2) = r.array_ref(2);
        proof {
            lemma_pow256_values();
            assert(bytes@.subrange(0, 2) =~= r@);
        }
        (read_le(bytes, 0, 2) as i16, r2)
    }
}

impl BinaryParse for Le<u32> {
    type Output = u32;

    open spec fn spec_size() -> nat {
        4
    }

    open spec fn spec_parse(bytes: Seq<u8>) -> u32 {
        le_nat(bytes) as u32
    }

    fn size() -> (n: usize) {
        4
    }

    #[inline]
    fn parse<'a>(r: BytesReader<'a>) -> (res: (u32, BytesReader<'a>)) {
        let (bytes, r2) = r.array_ref(4);
        proof {
            lemma_pow256_values();
            assert(bytes@.subrange(0, 4) =~= r@);
        }
        (read_le(bytes, 0, 4) as u32, r2)
    }
}

impl BinaryParse for Le<i32> {
    type Output = i32;

    open spec fn spec_size() -> nat {
        4
    }

    open spec fn spec_parse(bytes: Seq<u8>) -> i32 {
        le_nat(bytes) as i32
    }

    fn size() -> (n: usize) {
        4
    }

    #[inline]
    fn parse<'a>(r: BytesReader<'a>) -> (res: (i32, BytesReader<'a>)) {
        let (bytes, r2) = r.array_ref(4);
        proof {
            lemma_pow256_values();
            assert(bytes@.subrange(0, 4) =~= r@);
        }
        (read_le(bytes, 0, 4) as i32, r2)
    }
}

impl BinaryParse for Le<u64> {
    type Output = u64;

    open spec fn spec_size() -> nat {
        8
    }

    open spec fn spec_parse(bytes: Seq<u8>) -> u64 {
        le_nat(bytes) as u64
    }

    fn size() -> (n: usize) {
        8
    }

    #[inline]
    fn parse<'a>(r: BytesReader<'a>) -> (res: (u64, BytesReader<'a>)) {
        let (bytes, r2) = r.array_ref(8);
        proof {
            lemma_pow256_values();
            assert(bytes@.subrange(0, 8) =~= r@);
        }
        (read_le(bytes, 0, 8) as u64, r2)
    }
}

impl BinaryParse for Le<i64> {
    type Output = i64;

    open spec fn spec_size() -> nat {
        8
    }

    open spec fn spec_parse(bytes: Seq<u8>) -> i64 {
        le_nat(bytes) as i64
    }

    fn size() -> (n: usize) {
        8
    }

    #[inline]
    fn parse<'a>(r: BytesReader<'a>) -> (res: (i64, BytesReader<'a>)) {
        let (bytes, r2) = r.array_ref(8);
        proof {
            lemma_pow256_values();
            assert(bytes@.subrange(0, 8) =~= r@);
        }
        (read_le(bytes, 0, 8) as i64, r2)
    }
}

impl BinaryParse for Le<u128> {
    type Output = u128;

    open spec fn spec_size() -> nat {
        16
    }

    open spec fn spec_parse(bytes: Seq<u8>) -> u128 {
        le_nat(bytes) as u128
    }

    fn size() -> (n: usize) {
        16
    }

    #[inline]
    fn parse<'a>(r: BytesReader<'a>) -> (res: (u128, BytesReader<'a>)) {
        let (bytes, r2) = r.array_ref(16);
        proof {
            lemma_pow256_values();
            assert(bytes@.subrange(0, 16) =~= r@);
        }
        (read_le(bytes, 0, 16) as u128, r2)
    }
}

impl BinaryParse for Le<i128> {
    type Output = i128;

    open spec fn spec_size() -> nat {
        16
    }

    open spec fn spec_parse(bytes: Seq<u8>) -> i128 {
        le_nat(bytes) as i128
    }

    fn size() -> (n: usize) {
        16
    }

    #[inline]
    fn parse<'a>(r: BytesReader<'a>) -> (res: (i128, BytesReader<'a>)) {
        let (bytes, r2) = r.array_ref(16);
        proof {
            lemma_pow256_values();
            assert(bytes@.subrange(0, 16) =~= r@);
        }
        (read_le(bytes, 0, 16) as i128, r2)
    }
}

impl BinaryParse for Be<u16> {
    type Output = u16;

    open spec fn spec_size() -> nat {
        2
    }

    open spec fn spec_parse(bytes: Seq<u8>) -> u16 {
        be_nat(bytes) as u16
    }

    fn size() -> (n: usize) {
        2
    }

    #[inline]
    fn parse<'a>(r: BytesReader<'a>) -> (res: (u16, BytesReader<'a>)) {
        let (bytes, r2) = r.array_ref(2);
        proof {
            lemma_pow256_values();
            assert(bytes@.subrange(0, 2) =~= r@);
        }
        (read_be(bytes, 0, 2) as u16, r2)
    }
}

impl BinaryParse for Be<i16> {
    type Output = i16;

    open spec fn spec_size() -> nat {
        2
    }

    open spec fn spec_parse(bytes: Seq<u8>) -> i16 {
        be_nat(bytes) as i16
    }

    fn size() -> (n: usize) {
        2
    }

    #[inline]
    fn parse<'a>(r: BytesReader<'a>) -> (res: (i16, BytesReader<'a>)) {
        let (bytes, r2) = r.array_ref(2);
        proof {
            lemma_pow256_values();
            assert(bytes@.subrange(0, 2) =~= r@);
        }
        (read_be(bytes, 0, 2) as i16, r2)
    }
}

impl BinaryParse for Be<u32> {
    type Output = u32;

    open spec fn spec_size() -> nat {
        4
    }

    open spec fn spec_parse(bytes: Seq<u8>) -> u32 {
        be_nat(bytes) as u32
    }

    fn size() -> (n: usize) {
        4
    }

    #[inline]
    fn parse<'a>(r: BytesReader<'a>) -> (res: (u32, BytesReader<'a>)) {
        let (bytes, r2) = r.array_ref(4);
        proof {
            lemma_pow256_values();
            assert(bytes@.subrange(0, 4) =~= r@);
        }
        (read_be(bytes, 0, 4) as u32, r2)
    }
}

impl BinaryParse for Be<i32> {
    type Output = i32;

    open spec fn spec_size() -> nat {
        4
    }

    open spec fn spec_parse(bytes: Seq<u8>) -> i32 {
        be_nat(bytes) as i32
    }

    fn size() -> (n: usize) {
        4
    }

    #[inline]
    fn parse<'a>(r: BytesReader<'a>) -> (res: (i32, BytesReader<'a>)) {
        let (bytes, r2) = r.array_ref(4);
        proof {
            lemma_pow256_values();
            assert(bytes@.subrange(0, 4) =~= r@);
        }
        (read_be(bytes, 0, 4) as i32, r2)
    }
}

impl BinaryParse for Be<u64> {
    type Output = u64;

    open spec fn spec_size() -> nat {
        8
    }

    open spec fn spec_parse(bytes: Seq<u8>) -> u64 {
        be_nat(bytes) as u64
    }

    fn size() -> (n: usize) {
        8
    }

    #[inline]
    fn parse<'a>(r: BytesReader<'a>) -> (res: (u64, BytesReader<'a>)) {
        let (bytes, r2) = r.array_ref(8);
        proof {
            lemma_pow256_values();
            assert(bytes@.subrange(0, 8) =~= r@);
        }
        (read_be(bytes, 0, 8) as u64, r2)
    }
}

impl BinaryParse for Be<i64> {
    type Output = i64;

    open spec fn spec_size() -> nat {
        8
    }

    open spec fn spec_parse(bytes: Seq<u8>) -> i64 {
        be_nat(bytes) as i64
    }

    fn size() -> (n: usize) {
        8
    }

    #[inline]
    fn parse<'a>(r: BytesReader<'a>) -> (res: (i64, BytesReader<'a>)) {
        let (bytes, r2) = r.array_ref(8);
        proof {
            lemma_pow256_values();
            assert(bytes@.subrange(0, 8) =~= r@);
        }
        (read_be(bytes, 0, 8) as i64, r2)
    }
}

impl BinaryParse for Be<u128> {
    type Output = u128;

    open spec fn spec_size() -> nat {
        16
    }

    open spec fn spec_parse(bytes: Seq<u8>) -> u128 {
        be_nat(bytes) as u128
    }

    fn size() -> (n: usize) {
        16
    }

    #[inline]
    fn parse<'a>(r: BytesReader<'a>) -> (res: (u128, BytesReader<'a>)) {
        let (bytes, r2) = r.array_ref(16);
        proof {
            lemma_pow256_values();
            assert(bytes@.subrange(0, 16) =~= r@);
        }
        (read_be(bytes, 0, 16) as u128, r2)
    }
}

impl BinaryParse for Be<i128> {
    type Output = i128;

    open spec fn spec_size() -> nat {
        16
    }

    open spec fn spec_parse(bytes: Seq<u8>) -> i128 {
        be_nat(bytes) as i128
    }

    fn size() -> (n: usize) {
        16
    }

    #[inline]
    fn parse<'a>(r: BytesReader<'a>) -> (res: (i128, BytesReader<'a>)) {
        let (bytes, r2) = r.array_ref(16);
        proof {
            lemma_pow256_values();
            assert(bytes@.subrange(0, 16) =~= r@);
        }
        (read_be(bytes, 0, 16) as i128, r2)
    }
}

/// Little-endian parsing reads back the little-endian encoding of any value, and
/// big-endian parsing reads back the reversed (big-endian) encoding; a big-endian parse
/// of bytes is the little-endian parse of the same bytes reversed.

/// Parsing the 2-byte little-endian encoding of a `u16` gives it back; so does parsing
/// the big-endian encoding, its reverse, as big-endian.
pub proof fn lemma_u16_round_trip(x: u16)
    ensures
        <Le<u16> as BinaryParse>::spec_parse(le_bytes(x as nat, 2)) == x,
        <Be<u16> as BinaryParse>::spec_parse(le_bytes(x as nat, 2).reverse()) == x,
{
    lemma_pow256_values();
    lemma_le_nat_le_bytes(x as nat, 2);
    lemma_be_nat_reverse(le_bytes(x as nat, 2));
}

/// A big-endian `u16` is the little-endian `u16` of the reversed bytes.
pub proof fn lemma_u16_be_is_reversed_le(bytes: Seq<u8>)
    ensures
        <Be<u16> as BinaryParse>::spec_parse(bytes) == <Le<u16> as BinaryParse>::spec_parse(
            bytes.reverse(),
        ),
{
    lemma_be_nat_reverse(bytes.reverse());
    assert(bytes.reverse().reverse() =~= bytes);
}

/// Parsing the 2-byte little-endian encoding of a `i16` gives it back; so does parsing
/// the big-endian encoding, its reverse, as big-endian.
pub proof fn lemma_i16_round_trip(x: i16)
    ensures
        <Le<i16> as BinaryParse>::spec_parse(le_bytes((x as u16) as nat, 2)) == x,
        <Be<i16> as BinaryParse>::spec_parse(le_bytes((x as u16) as nat, 2).reverse()) == x,
{
    lemma_pow256_values();
    lemma_le_nat_le_bytes((x as u16) as nat, 2);
    lemma_be_nat_reverse(le_bytes((x as u16) as nat, 2));
    assert((x as u16) as i16 == x) by (bit_vector);
}

/// A big-endian `i16` is the little-endian `i16` of the reversed bytes.
pub proof fn lemma_i16_be_is_reversed_le(bytes: Seq<u8>)
    ensures
        <Be<i16> as BinaryParse>::spec_parse(bytes) == <Le<i16> as BinaryParse>::spec_parse(
            bytes.reverse(),
        ),
{
    lemma_be_nat_reverse(bytes.reverse());
    assert(bytes.reverse().reverse() =~= bytes);
}

/// Parsing the 4-byte little-endian encoding of a `u32` gives it back; so does parsing
/// the big-endian encoding, its reverse, as big-endian.
pub proof fn lemma_u32_round_trip(x: u32)
    ensures
        <Le<u32> as BinaryParse>::spec_parse(le_bytes(x as nat, 4)) == x,
        <Be<u32> as BinaryParse>::spec_parse(le_bytes(x as nat, 4).reverse()) == x,
{
    lemma_pow256_values();
    lemma_le_nat_le_bytes(x as nat, 4);
    lemma_be_nat_reverse(le_bytes(x as nat, 4));
}

/// A big-endian `u32` is the little-endian `u32` of the reversed bytes.
pub proof fn lemma_u32_be_is_reversed_le(bytes: Seq<u8>)
    ensures
        <Be<u32> as BinaryParse>::spec_parse(bytes) == <Le<u32> as BinaryParse>::spec_parse(
            bytes.reverse(),
        ),
{
    lemma_be_nat_reverse(bytes.reverse());
    assert(bytes.reverse().reverse() =~= bytes);
}

/// Parsing the 4-byte little-endian encoding of a `i32` gives it back; so does parsing
/// the big-endian encoding, its reverse, as big-endian.
pub proof fn lemma_i32_round_trip(x: i32)
    ensures
        <Le<i32> as BinaryParse>::spec_parse(le_bytes((x as u32) as nat, 4)) == x,
        <Be<i32> as BinaryParse>::spec_parse(le_bytes((x as u32) as nat, 4).reverse()) == x,
{
    lemma_pow256_values();
    lemma_le_nat_le_bytes((x as u32) as nat, 4);
    lemma_be_nat_reverse(le_bytes((x as u32) as nat, 4));
    assert((x as u32) as i32 == x) by (bit_vector);
}

/// A big-endian `i32` is the little-endian `i32` of the reversed bytes.
pub proof fn lemma_i32_be_is_reversed_le(bytes: Seq<u8>)
    ensures
        <Be<i32> as BinaryParse>::spec_parse(bytes) == <Le<i32> as BinaryParse>::spec_parse(
            bytes.reverse(),
        ),
{
    lemma_be_nat_reverse(bytes.reverse());
    assert(bytes.reverse().reverse() =~= bytes);
}

/// Parsing the 8-byte little-endian encoding of a `u64` gives it back; so does parsing
/// the big-endian encoding, its reverse, as big-endian.
pub proof fn lemma_u64_round_trip(x: u64)
    ensures
        <Le<u64> as BinaryParse>::spec_parse(le_bytes(x as nat, 8)) == x,
        <Be<u64> as BinaryParse>::spec_parse(le_bytes(x as nat, 8).reverse()) == x,
{
    lemma_pow256_values();
    lemma_le_nat_le_bytes(x as nat, 8);
    lemma_be_nat_reverse(le_bytes(x as nat, 8));
}

/// A big-endian `u64` is the little-endian `u64` of the reversed bytes.
pub proof fn lemma_u64_be_is_reversed_le(bytes: Seq<u8>)
    ensures
        <Be<u64> as BinaryParse>::spec_parse(bytes) == <Le<u64> as BinaryParse>::spec_parse(
            bytes.reverse(),
        ),
{
    lemma_be_nat_reverse(bytes.reverse());
    assert(bytes.reverse().reverse() =~= bytes);
}

/// Parsing the 8-byte little-endian encoding of a `i64` gives it back; so does parsing
/// the big-endian encoding, its reverse, as big-endian.
pub proof fn lemma_i64_round_trip(x: i64)
    ensures
        <Le<i64> as BinaryParse>::spec_parse(le_bytes((x as u64) as nat, 8)) == x,
        <Be<i64> as BinaryParse>::spec_parse(le_bytes((x as u64) as nat, 8).reverse()) == x,
{
    lemma_pow256_values();
    lemma_le_nat_le_bytes((x as u64) as nat, 8);
    lemma_be_nat_reverse(le_bytes((x as u64) as nat, 8));
    assert((x as u64) as i64 == x) by (bit_vector);
}

/// A big-endian `i64` is the little-endian `i64` of the reversed bytes.
pub proof fn lemma_i64_be_is_reversed_le(bytes: Seq<u8>)
    ensures
        <Be<i64> as BinaryParse>::spec_parse(bytes) == <Le<i64> as BinaryParse>::spec_parse(
            bytes.reverse(),
        ),
{
    lemma_be_nat_reverse(bytes.reverse());
    assert(bytes.reverse().reverse() =~= bytes);
}

/// Parsing the 16-byte little-endian encoding of a `u128` gives it back; so does parsing
/// the big-endian encoding, its reverse, as big-endian.
pub proof fn lemma_u128_round_trip(x: u128)
    ensures
        <Le<u128> as BinaryParse>::spec_parse(le_bytes(x as nat, 16)) == x,
        <Be<u128> as BinaryParse>::spec_parse(le_bytes(x as nat, 16).reverse()) == x,
{
    lemma_pow256_values();
    lemma_le_nat_le_bytes(x as nat, 16);
    lemma_be_nat_reverse(le_bytes(x as nat, 16));
}

/// A big-endian `u128` is the little-endian `u128` of the reversed bytes.
pub proof fn lemma_u128_be_is_reversed_le(bytes: Seq<u8>)
    ensures
        <Be<u128> as BinaryParse>::spec_parse(bytes) == <Le<u128> as BinaryParse>::spec_parse(
            bytes.reverse(),
        ),
{
    lemma_be_nat_reverse(bytes.reverse());
    assert(bytes.reverse().reverse() =~= bytes);
}

/// Parsing the 16-byte little-endian encoding of a `i128` gives it back; so does parsing
/// the big-endian encoding, its reverse, as big-endian.
pub proof fn lemma_i128_round_trip(x: i128)
    ensures
        <Le<i128> as BinaryParse>::spec_parse(le_bytes((x as u128) as nat, 16)) == x,
        <Be<i128> as BinaryParse>::spec_parse(le_bytes((x as u128) as nat, 16).reverse()) == x,
{
    lemma_pow256_values();
    lemma_le_nat_le_bytes((x as u128) as nat, 16);
    lemma_be_nat_reverse(le_bytes((x as u128) as nat, 16));
    assert((x as u128) as i128 == x) by (bit_vector);
}

/// A big-endian `i128` is the little-endian `i128` of the reversed bytes.
pub proof fn lemma_i128_be_is_reversed_le(bytes: Seq<u8>)
    ensures
        <Be<i128> as BinaryParse>::spec_parse(bytes) == <Le<i128> as BinaryParse>::spec_parse(
            bytes.reverse(),
        ),
{
    lemma_be_nat_reverse(bytes.reverse());
    assert(bytes.reverse().reverse() =~= bytes);
}

} // verus!
