//! Decryptors of XVC regions and the page ranges they cover.

use crate::bytes::le_bytes;
use crate::crypt::xts::{decrypt_page_xts, xts_decrypt, TweakGenerator};
use crate::guid::guid_swap_fields;
use crate::layout::PAGE_SIZE;
use core::ops::Range;
use vstd::prelude::*;

verus! {

/// Decrypts pages within an XVC region using AES-XTS.
#[derive(Debug)]
pub struct RegionDecryptor {
    tweak: TweakGenerator,
    tweak_key: [u8; 16],
    data_key: [u8; 16],
    /// If integrity is enabled, it holds one entry per page in the region; if integrity is
    /// disabled, it is empty and the page's index in the region is used as its data unit.
    data_units: Vec<u32>,
}

impl Clone for RegionDecryptor {
    fn clone(&self) -> (r: Self)
        ensures
            r.same_as(*self),
    {
        Self {
            tweak: self.tweak,
            tweak_key: self.tweak_key,
            data_key: self.data_key,
            data_units: self.data_units.clone(),
        }
    }
}

impl RegionDecryptor {
    /// Both decryptors decrypt every page alike: same generator, keys and data units.
    pub open spec fn same_as(self, other: Self) -> bool {
        &&& self.generator() == other.generator()
        &&& self.tweak_key() == other.tweak_key()
        &&& self.data_key() == other.data_key()
        &&& self.units() == other.units()
    }

    /// The generator of the region's tweaks.
    pub closed spec fn generator(self) -> TweakGenerator {
        self.tweak
    }

    /// The key that encrypts tweaks (the first half of the full key).
    pub closed spec fn tweak_key(self) -> Seq<u8> {
        self.tweak_key@
    }

    /// The key that decrypts data (the second half of the full key).
    pub closed spec fn data_key(self) -> Seq<u8> {
        self.data_key@
    }

    /// The data units of the region's pages.
    pub closed spec fn units(self) -> Seq<u32> {
        self.data_units@
    }

    /// The data unit of the page at `page_in_region`: its entry in the data units, or the
    /// index itself, truncated to 32 bits, where there is none.
    pub open spec fn data_unit_for(self, page_in_region: int) -> u32 {
        if 0 <= page_in_region < self.units().len() {
            self.units()[page_in_region]
        } else {
            page_in_region as u32
        }
    }

    /// The plaintext of the ciphertext `page` found at `page_in_region`.
    pub open spec fn spec_decrypt_at(self, page_in_region: int, page: Seq<u8>) -> Seq<u8> {
        xts_decrypt(
            self.tweak_key(),
            self.data_key(),
            self.generator().spec_with_data_unit(self.data_unit_for(page_in_region)),
            page,
        )
    }

    /// Creates the decryptor of a region from its id, the VDUID (RFC 4122 bytes), the
    /// 32-byte key (tweak key, then data key) and the data units.
    pub fn new(region_id: u32, vduid: [u8; 16], full_key: [u8; 32], data_units: Vec<u32>) -> (d:
        Self)
        ensures
            d.generator().region_id_bytes() == le_bytes(region_id as nat, 4),
            d.generator().vduid_bytes() == guid_swap_fields(vduid@).subrange(0, 8),
            d.tweak_key() == full_key@.subrange(0, 16),
            d.data_key() == full_key@.subrange(16, 32),
            d.units() == data_units@,
    {
        let mut tweak_key = [0u8; 16];
        let mut data_key = [0u8; 16];
        let mut i: usize = 0;
        while i < 16
            invariant
                i <= 16,
                tweak_key@.len() == 16,
                data_key@.len() == 16,
                forall|k: int| 0 <= k < i ==> tweak_key@[k] == full_key@[k],
                forall|k: int| 0 <= k < i ==> data_key@[k] == full_key@[16 + k],
            decreases 16 - i,
        {
            tweak_key[i] = full_key[i];
            data_key[i] = full_key[16 + i];
            i = i + 1;
        }
        let d = Self { tweak: TweakGenerator::new(region_id, vduid), tweak_key, data_key, data_units };
        assert(d.tweak_key@ =~= full_key@.subrange(0, 16));
        assert(d.data_key@ =~= full_key@.subrange(16, 32));
        d
    }

    /// The number of data units the decryptor holds.
    pub fn units_len(&self) -> (n: usize)
        ensures
            n == self.units().len(),
    {
        self.data_units.len()
    }

    /// Decrypts `page` in place, with the tweak of the page at `page_in_region`.
    ///
    /// Where `page_in_region` lies beyond the data units, the index itself (truncated to
    /// 32 bits) is the data unit.
    pub fn decrypt_at(&self, page_in_region: usize, page: &mut [u8; PAGE_SIZE])
        ensures
            final(page)@ == self.spec_decrypt_at(page_in_region as int, old(page)@),
    {
        let data_unit = if page_in_region < self.data_units.len() {
            self.data_units[page_in_region]
        } else {
            page_in_region as u32
        };
        let tweak = self.tweak.with_data_unit(data_unit);
        decrypt_page_xts(page, tweak, &self.tweak_key, &self.data_key);
    }
}

/// A region of an XVC file: the pages it spans and its decryptor, if it is encrypted.
#[derive(Debug)]
pub struct Region {
    /// The first page of the region.
    start: u64,
    /// The page after the last page of the region.
    end: u64,
    decryptor: Option<RegionDecryptor>,
}

/// Why [`Region::new`] refused its arguments.
#[derive(Debug)]
pub enum NewRegionError {
    /// The page range ends before it starts.
    InvalidPageRange(Range<u64>),
    /// The decryptor holds data units, but not one for each page.
    InvalidDataUnitCount { expected: u64, found: u64 },
}

impl Clone for Region {
    fn clone(&self) -> (r: Self)
        ensures
            r.start() == self.start(),
            r.end() == self.end(),
            r.decryptor() is Some <==> self.decryptor() is Some,
            r.decryptor() matches Some(d) ==> d.same_as(self.decryptor()->0),
    {
        proof {
            use_type_invariant(self);
        }
        let decryptor = match &self.decryptor {
            Some(d) => Some(d.clone()),
            None => None,
        };
        Self { start: self.start, end: self.end, decryptor }
    }
}

impl Region {
    /// The first page of the region.
    pub closed spec fn start(self) -> u64 {
        self.start
    }

    /// The page after the last page of the region.
    pub closed spec fn end(self) -> u64 {
        self.end
    }

    #[verifier::type_invariant]
    closed spec fn region_invariant(self) -> bool {
        self.wf()
    }

    /// The region's decryptor, if it is encrypted.
    pub closed spec fn decryptor(self) -> Option<RegionDecryptor> {
        self.decryptor
    }

    /// The range is not inverted, and a decryptor that holds data units holds one per page.
    pub open spec fn wf(self) -> bool {
        &&& self.start() <= self.end()
        &&& match self.decryptor() {
            Some(d) => d.units().len() > 0 ==> d.units().len() == self.end() - self.start(),
            None => true,
        }
    }

    /// Checks and creates a region.
    pub fn new(pages: Range<u64>, decryptor: Option<RegionDecryptor>) -> (r: Result<
        Self,
        NewRegionError,
    >)
        ensures
            pages.end < pages.start ==> r == Err::<Self, NewRegionError>(
                NewRegionError::InvalidPageRange(pages),
            ),
            pages.start <= pages.end && (decryptor matches Some(d) && d.units().len() > 0
                && d.units().len() != pages.end - pages.start) ==> r == Err::<Self, NewRegionError>(
                NewRegionError::InvalidDataUnitCount {
                    expected: (pages.end - pages.start) as u64,
                    found: decryptor->0.units().len() as u64,
                },
            ),
            pages.start <= pages.end && !(decryptor matches Some(d) && d.units().len() > 0
                && d.units().len() != pages.end - pages.start) ==> r is Ok,
            r matches Ok(region) ==> {
                &&& region.start() == pages.start
                &&& region.end() == pages.end
                &&& region.decryptor() == decryptor
                &&& region.wf()
            },
    {
        if pages.end < pages.start {
            return Err(NewRegionError::InvalidPageRange(pages));
        }
        let num_pages = pages.end - pages.start;
        if let Some(dec) = &decryptor {
            let data_units = dec.units_len() as u64;
            if data_units >= 1 && data_units != num_pages {
                return Err(NewRegionError::InvalidDataUnitCount { expected: num_pages, found: data_units });
            }
        }
        Ok(Self { start: pages.start, end: pages.end, decryptor })
    }

    /// The first page of the region.
    pub fn first_page(&self) -> (p: u64)
        ensures
            p == self.start(),
            self.wf(),
    {
        proof {
            use_type_invariant(self);
        }
        self.start
    }

    /// The page after the last page of the region.
    pub fn end_page(&self) -> (p: u64)
        ensures
            p == self.end(),
            self.wf(),
    {
        proof {
            use_type_invariant(self);
        }
        self.end
    }

    /// Decrypts `page`, the page at `page_in_region`, if the region is encrypted.
    pub fn decrypt_at(&self, page_in_region: usize, page: &mut [u8; PAGE_SIZE])
        ensures
            self.decryptor() matches Some(d) ==> final(page)@ == d.spec_decrypt_at(
                page_in_region as int,
                old(page)@,
            ),
            self.decryptor() is None ==> final(page)@ == old(page)@,
    {
        if let Some(decryptor) = &self.decryptor {
            decryptor.decrypt_at(page_in_region, page);
        }
    }
}

} // verus!
