//! Byte orders of GUIDs (the mixed-endian layout used by Microsoft formats).

use uuid::Uuid;
use vstd::prelude::*;

verus! {

/// Reorders GUID bytes between the RFC 4122 order and the little-endian field order:
/// the first three fields (4, 2 and 2 bytes) are reversed, the last 8 bytes stay.
pub open spec fn guid_swap_fields(b: Seq<u8>) -> Seq<u8> {
    seq![b[3], b[2], b[1], b[0], b[5], b[4], b[7], b[6]] + b.subrange(8, 16)
}

/// The bytes of the UUID whose RFC 4122 bytes are `bytes`, in the little-endian field
/// order, by `uuid::Uuid::from_bytes` and `Uuid::to_bytes_le`.
///
/// Claimed, as `to_bytes_le`'s source shows: the first three fields are reversed and the
/// last eight bytes are kept.
#[verifier::external_body]
pub(crate) fn uuid_to_bytes_le(bytes: [u8; 16]) -> (r: [u8; 16])
    ensures
        r@ == guid_swap_fields(bytes@),
{
    Uuid::from_bytes(bytes).to_bytes_le()
}

/// The RFC 4122 bytes of the UUID read from `bytes` in the little-endian field order, by
/// `uuid::Uuid::from_bytes_le` and `Uuid::as_bytes`.
///
/// Claimed, as `from_bytes_le`'s source shows: the first three fields are reversed and the
/// last eight bytes are kept.
#[verifier::external_body]
pub(crate) fn uuid_from_bytes_le(bytes: [u8; 16]) -> (r: [u8; 16])
    ensures
        r@ == guid_swap_fields(bytes@),
{
    *Uuid::from_bytes_le(bytes).as_bytes()
}

} // verus!
