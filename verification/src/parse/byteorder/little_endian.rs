//! Little-endian type aliases.

use super::Le;
use vstd::prelude::*;

verus! {

pub type U16 = Le<u16>;

pub type I16 = Le<i16>;

pub type U32 = Le<u32>;

pub type I32 = Le<i32>;

pub type U64 = Le<u64>;

pub type I64 = Le<i64>;

pub type U128 = Le<u128>;

pub type I128 = Le<i128>;

} // verus!
