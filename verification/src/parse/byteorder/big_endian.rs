//! Big-endian type aliases.

use super::Be;
use vstd::prelude::*;

verus! {

pub type U16 = Be<u16>;

pub type I16 = Be<i16>;

pub type U32 = Be<u32>;

pub type I32 = Be<i32>;

pub type U64 = Be<u64>;

pub type I64 = Be<i64>;

pub type U128 = Be<u128>;

pub type I128 = Be<i128>;

} // verus!
