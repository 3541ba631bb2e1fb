//! Tag-length-value records: a little-endian `u16` tag, a little-endian `u32` length and
//! that many bytes of value.

use crate::bytes::{
    le_bytes, le_nat, lemma_le_bytes_le_nat, lemma_le_bytes_len, lemma_le_nat_bound,
    lemma_le_nat_le_bytes, lemma_pow256_values, read_le,
};
use vstd::prelude::*;
use vstd::slice::slice_to_vec;

verus! {

/// The record at the start of `s`: its tag, its value and the number of bytes it spans,
/// or `None` when `s` ends before the record does.
pub open spec fn spec_tlv_parse(s: Seq<u8>) -> Option<(u16, Seq<u8>, nat)> {
    if s.len() < 6 {
        None
    } else {
        let len = le_nat(s.subrange(2, 6));
        if s.len() < 6 + len {
            None
        } else {
            Some((le_nat(s.subrange(0, 2)) as u16, s.subrange(6, 6 + len as int), 6 + len))
        }
    }
}

/// The records that `s` consists of, one after the other, or `None` when its last record
/// is cut short.
pub open spec fn spec_decode_all(s: Seq<u8>) -> Option<Seq<(u16, Seq<u8>)>>
    decreases s.len(),
{
    if s.len() == 0 {
        Some(Seq::empty())
    } else {
        match spec_tlv_parse(s) {
            None => None,
            Some((tag, value, n)) => if 0 < n <= s.len() {
                match spec_decode_all(s.subrange(n as int, s.len() as int)) {
                    None => None,
                    Some(rest) => Some(seq![(tag, value)] + rest),
                }
            } else {
                None
            },
        }
    }
}

/// The encoding of one record.
pub open spec fn spec_tlv_encode(tag: u16, value: Seq<u8>) -> Seq<u8> {
    le_bytes(tag as nat, 2) + le_bytes(value.len(), 4) + value
}

/// The encoding of records one after the other.
pub open spec fn spec_encode_all(tlvs: Seq<(u16, Seq<u8>)>) -> Seq<u8>
    decreases tlvs.len(),
{
    if tlvs.len() == 0 {
        Seq::empty()
    } else {
        spec_tlv_encode(tlvs[0].0, tlvs[0].1) + spec_encode_all(tlvs.drop_first())
    }
}

/// Why a record could not be decoded.
#[derive(Clone, Copy, Debug, PartialEq, Eq, Structural)]
pub enum TlvError {
    /// The input ended before the record did.
    UnexpectedEof,
}

/// A record decoded from bytes: a tag and a value.
#[derive(Debug)]
pub struct TLV {
    pub tag: u16,
    pub value: Vec<u8>,
}

impl View for TLV {
    type V = (u16, Seq<u8>);

    open spec fn view(&self) -> (u16, Seq<u8>) {
        (self.tag, self.value@)
    }
}

/// The views of a sequence of records.
pub open spec fn tlvs_view(v: Seq<TLV>) -> Seq<(u16, Seq<u8>)> {
    v.map_values(|t: TLV| t@)
}

impl TLV {
    /// Decodes the record at the start of `data`; returns it with the number of bytes it
    /// spans.
    pub fn from_reader(data: &[u8]) -> (r: Result<(Self, usize), TlvError>)
        ensures
            match spec_tlv_parse(data@) {
                Some((tag, value, n)) => r matches Ok((tlv, m)) && tlv@ == (tag, value) && m == n,
                None => r == Err::<(Self, usize), TlvError>(TlvError::UnexpectedEof),
            },
    {
        if data.len() < 6 {
            return Err(TlvError::UnexpectedEof);
        }
        proof {
            lemma_pow256_values();
        }
        let tag = read_le(data, 0, 2) as u16;
        let length = read_le(data, 2, 4) as usize;
        if data.len() - 6 < length {
            return Err(TlvError::UnexpectedEof);
        }
        let value = slice_to_vec(&data[6..6 + length]);
        Ok((TLV { tag, value }, 6 + length))
    }

    /// Decodes `data` as records one after the other, up to its end.
    pub fn decode_all(data: &[u8]) -> (r: Result<Vec<Self>, TlvError>)
        ensures
            match spec_decode_all(data@) {
                Some(tlvs) => r matches Ok(v) && tlvs_view(v@) == tlvs,
                None => r == Err::<Vec<Self>, TlvError>(TlvError::UnexpectedEof),
            },
    {
        let mut tlvs: Vec<TLV> = Vec::new();
        let mut pos: usize = 0;
        let len = data.len();
        assert(data@.subrange(0, len as int) =~= data@);
        while pos < len
            invariant
                pos <= len,
                len == data@.len(),
                spec_decode_all(data@) == match spec_decode_all(
                    data@.subrange(pos as int, len as int),
                ) {
                    Some(rest) => Some(tlvs_view(tlvs@) + rest),
                    None => None,
                },
            decreases len - pos,
        {
            let ghost rest = data@.subrange(pos as int, len as int);
            let (tlv, n) = match TLV::from_reader(&data[pos..len]) {
                Ok(x) => x,
                Err(e) => {
                    return Err(e);
                },
            };
            proof {
                assert(data@.subrange(pos as int, len as int).subrange(n as int, rest.len() as int)
                    =~= data@.subrange(pos + n, len as int));
                assert(tlvs_view(tlvs@.push(tlv)) =~= tlvs_view(tlvs@) + seq![tlv@]);
                assert(tlvs_view(tlvs@) + seq![tlv@] + spec_decode_all(
                    data@.subrange(pos + n, len as int),
                ).unwrap_or(Seq::empty()) =~= tlvs_view(tlvs@) + (seq![tlv@] + spec_decode_all(
                    data@.subrange(pos + n, len as int),
                ).unwrap_or(Seq::empty())));
            }
            tlvs.push(tlv);
            pos = pos + n;
        }
        proof {
            assert(data@.subrange(len as int, len as int) =~= Seq::<u8>::empty());
            assert(tlvs_view(tlvs@) + Seq::<(u16, Seq<u8>)>::empty() =~= tlvs_view(tlvs@));
        }
        Ok(tlvs)
    }
}

/// A record's encoding, followed by anything, parses back to that record.
proof fn lemma_parse_encoded(tag: u16, value: Seq<u8>, rest: Seq<u8>)
    requires
        value.len() < 0x1_0000_0000,
    ensures
        spec_tlv_parse(spec_tlv_encode(tag, value) + rest) == Some(
            (tag, value, 6 + value.len()),
        ),
{
    lemma_pow256_values();
    let e = spec_tlv_encode(tag, value) + rest;
    lemma_le_bytes_len(tag as nat, 2);
    lemma_le_bytes_len(value.len(), 4);
    lemma_le_nat_le_bytes(tag as nat, 2);
    lemma_le_nat_le_bytes(value.len(), 4);
    assert(e.subrange(0, 2) =~= le_bytes(tag as nat, 2));
    assert(e.subrange(2, 6) =~= le_bytes(value.len(), 4));
    assert(e.subrange(6, 6 + value.len() as int) =~= value);
}

/// Decoding is lossless: the records that bytes decode to encode back to those bytes.
pub proof fn lemma_decode_then_encode(s: Seq<u8>)
    requires
        spec_decode_all(s) is Some,
    ensures
        spec_encode_all(spec_decode_all(s).unwrap()) == s,
    decreases s.len(),
{
    if s.len() > 0 {
        lemma_pow256_values();
        let (tag, value, n) = spec_tlv_parse(s).unwrap();
        let rest = s.subrange(n as int, s.len() as int);
        lemma_decode_then_encode(rest);
        let tlvs = spec_decode_all(s).unwrap();
        assert(tlvs.drop_first() =~= spec_decode_all(rest).unwrap());
        lemma_le_nat_bound(s.subrange(0, 2));
        lemma_le_bytes_le_nat(s.subrange(0, 2));
        lemma_le_bytes_le_nat(s.subrange(2, 6));
        assert(spec_tlv_encode(tag, value) =~= s.subrange(0, n as int));
        assert(s =~= s.subrange(0, n as int) + rest);
    } else {
        assert(spec_encode_all(Seq::empty()) =~= s);
    }
}

/// Records whose values fit a 32-bit length decode from their encoding.
pub proof fn lemma_encode_then_decode(tlvs: Seq<(u16, Seq<u8>)>)
    requires
        forall|i: int| 0 <= i < tlvs.len() ==> #[trigger] tlvs[i].1.len() < 0x1_0000_0000,
    ensures
        spec_decode_all(spec_encode_all(tlvs)) == Some(tlvs),
    decreases tlvs.len(),
{
    if tlvs.len() > 0 {
        let (tag, value) = tlvs[0];
        let rest = spec_encode_all(tlvs.drop_first());
        let s = spec_encode_all(tlvs);
        assert(tlvs[0].1.len() < 0x1_0000_0000);
        lemma_parse_encoded(tag, value, rest);
        lemma_encode_then_decode(tlvs.drop_first());
        let n = 6 + value.len();
        lemma_le_bytes_len(tag as nat, 2);
        lemma_le_bytes_len(value.len(), 4);
        assert(s == spec_tlv_encode(tag, value) + rest);
        assert(spec_tlv_encode(tag, value).len() == n);
        assert(s.subrange(n as int, s.len() as int) =~= rest);
        assert(tlvs =~= seq![(tag, value)] + tlvs.drop_first());
    } else {
        assert(spec_encode_all(tlvs) =~= Seq::<u8>::empty());
    }
}

} // verus!
