//! EKB blobs: the magic `EKB1`, a little-endian `u32` length, then that many bytes of
//! tag-length-value records.

use crate::bytes::{
    le_bytes, le_nat, lemma_le_bytes_len, lemma_le_nat_le_bytes, lemma_pow256_values, read_le,
};
use crate::tlv::{spec_decode_all, tlvs_view, TlvError, TLV};
use vstd::prelude::*;

verus! {

/// The magic that starts an EKB blob: `EKB1`.
pub const EKB_MAGIC: [u8; 4] = [0x45, 0x4b, 0x42, 0x31];

/// The records of the EKB blob at the start of `s`, or `None` when `s` ends early or its
/// records are cut short.
pub open spec fn spec_ekb_records(s: Seq<u8>) -> Option<Seq<(u16, Seq<u8>)>> {
    if s.len() < 8 {
        None
    } else {
        let len = le_nat(s.subrange(4, 8));
        if s.len() < 8 + len {
            None
        } else {
            spec_decode_all(s.subrange(8, 8 + len as int))
        }
    }
}

/// Whether `s` cannot be an EKB blob because its first four bytes are not the magic.
pub open spec fn spec_bad_magic(s: Seq<u8>) -> bool {
    s.len() >= 4 && s.subrange(0, 4) != EKB_MAGIC@
}

/// A blob made of the magic, the little-endian length of a body and that body, followed by
/// anything, has the magic right and holds the records the body decodes to.
pub proof fn lemma_ekb_of_body(body: Seq<u8>, rest: Seq<u8>)
    requires
        body.len() < 0x1_0000_0000,
    ensures
        !spec_bad_magic(EKB_MAGIC@ + le_bytes(body.len(), 4) + body + rest),
        spec_ekb_records(EKB_MAGIC@ + le_bytes(body.len(), 4) + body + rest) == spec_decode_all(
            body,
        ),
{
    lemma_pow256_values();
    lemma_le_bytes_len(body.len(), 4);
    lemma_le_nat_le_bytes(body.len(), 4);
    let s = EKB_MAGIC@ + le_bytes(body.len(), 4) + body + rest;
    assert(EKB_MAGIC@.len() == 4);
    assert(s.subrange(0, 4) =~= EKB_MAGIC@);
    assert(s.subrange(4, 8) =~= le_bytes(body.len(), 4));
    assert(s.subrange(8, 8 + body.len() as int) =~= body);
}

/// An EKB blob: the records it holds.
#[derive(Debug)]
pub struct EKB {
    pub tlvs: Vec<TLV>,
}

impl EKB {
    /// Decodes the EKB blob at the start of `data` (bytes after its end are ignored). The
    /// magic must be right wherever `data` holds four bytes.
    pub fn from_reader(data: &[u8]) -> (r: Result<Self, TlvError>)
        requires
            !spec_bad_magic(data@),
        ensures
            match spec_ekb_records(data@) {
                Some(tlvs) => r matches Ok(ekb) && tlvs_view(ekb.tlvs@) == tlvs,
                None => r == Err::<Self, TlvError>(TlvError::UnexpectedEof),
            },
    {
        if data.len() < 8 {
            return Err(TlvError::UnexpectedEof);
        }
        proof {
            lemma_pow256_values();
        }
        let length = read_le(data, 4, 4) as usize;
        if data.len() - 8 < length {
            return Err(TlvError::UnexpectedEof);
        }
        match TLV::decode_all(&data[8..8 + length]) {
            Ok(tlvs) => Ok(EKB { tlvs }),
            Err(e) => Err(e),
        }
    }
}

} // verus!
