//! Random-access reads from an encrypted section, one decrypted page cached at a time.
//!
//! A read is driven in steps: [`SectionReader::start_read`] checks the range, then each
//! [`SectionReader::step`] either copies bytes out of the cached page or asks for a page,
//! which the caller reads from the underlying reader and hands to
//! [`SectionReader::install_page`].

use crate::bytes::le_bytes;
use crate::crypt::xts::{decrypt_page_xts, xts_decrypt, TweakGenerator};
use crate::guid::guid_swap_fields;
use crate::layout::PAGE_SIZE;
use vstd::prelude::*;

verus! {

/// Why a read from a section was refused.
#[derive(Clone, Copy, Debug, PartialEq, Eq, Structural)]
pub enum SectionReadError {
    /// The end of the requested range overflows.
    RangeOverflow,
    /// The requested range extends past the end of the section.
    ReadPastEnd,
    /// The offset of a page in the file overflows.
    FileOffsetOverflow,
    /// The section has data units, but none for a page that the read needs.
    MissingDataUnit,
}

/// A page that a read needs: where it lies in the underlying reader and its data unit.
#[derive(Clone, Copy, Debug, PartialEq, Eq, Structural)]
pub struct PageFetch {
    pub page_in_section: u64,
    pub file_offset: u64,
    pub data_unit: u32,
}

/// The progress of a read: the next offset in the section and how many bytes have been
/// written to the output.
#[derive(Clone, Copy, Debug, PartialEq, Eq, Structural)]
pub struct SectionRead {
    pub offset: u64,
    pub written: usize,
}

/// What one step of a read did or needs.
#[derive(Clone, Copy, Debug, PartialEq, Eq, Structural)]
pub enum ReadStep {
    /// The whole output has been filled.
    Done,
    /// This many bytes were copied from the cached page.
    Copied(usize),
    /// The page must be read and installed before the read can go on.
    Fetch(PageFetch),
}

/// Reads from an encrypted section of a file, keeping the last decrypted page.
pub struct SectionReader {
    section_offset: u64,
    section_length: u64,
    tweak: TweakGenerator,
    tweak_key: [u8; 16],
    data_key: [u8; 16],
    /// If integrity is enabled, one entry per page in the section; if it is disabled,
    /// `None`, and the page's index in the section is its data unit.
    data_units: Option<Vec<u32>>,
    cached_page_index: Option<u64>,
    cached_page_plaintext: [u8; PAGE_SIZE],
    /// The raw bytes of the cached page.
    cached_raw: Ghost<Seq<u8>>,
}

impl SectionReader {
    #[verifier::type_invariant]
    closed spec fn reader_invariant(self) -> bool {
        self.cached_page_index matches Some(p) ==> {
            &&& self.spec_data_unit(p) is Some
            &&& self.cached_page_plaintext@ == self.page_plaintext(p, self.cached_raw@)
        }
    }

    /// The raw bytes of the cached page.
    pub closed spec fn cached_raw_page(self) -> Seq<u8> {
        self.cached_raw@
    }

    /// The plaintext of raw page `raw` when it is page `page` of the section: decrypted
    /// with the tweak of the page's data unit.
    pub open spec fn page_plaintext(self, page: u64, raw: Seq<u8>) -> Seq<u8> {
        xts_decrypt(
            self.tweak_key(),
            self.data_key(),
            self.generator().spec_with_data_unit(self.spec_data_unit(page).unwrap()),
            raw,
        )
    }

    /// Where the section starts in the underlying reader.
    pub closed spec fn offset_in_file(self) -> u64 {
        self.section_offset
    }

    /// The length of the section in bytes.
    pub closed spec fn length(self) -> u64 {
        self.section_length
    }

    /// The generator of the section's tweaks.
    pub closed spec fn generator(self) -> TweakGenerator {
        self.tweak
    }

    /// The key that encrypts tweaks.
    pub closed spec fn tweak_key(self) -> Seq<u8> {
        self.tweak_key@
    }

    /// The key that decrypts data.
    pub closed spec fn data_key(self) -> Seq<u8> {
        self.data_key@
    }

    /// The data units, if integrity is enabled.
    pub closed spec fn units(self) -> Option<Seq<u32>> {
        match self.data_units {
            Some(v) => Some(v@),
            None => None,
        }
    }

    /// The index of the cached page, if any.
    pub closed spec fn cached_index(self) -> Option<u64> {
        self.cached_page_index
    }

    /// The cached plaintext.
    pub closed spec fn cached_bytes(self) -> Seq<u8> {
        self.cached_page_plaintext@
    }

    /// The data unit of page `page`, or `None` when the section has data units but none
    /// for that page.
    pub open spec fn spec_data_unit(self, page: u64) -> Option<u32> {
        match self.units() {
            Some(units) => if (page as usize) < units.len() {
                Some(units[(page as usize) as int])
            } else {
                None
            },
            None => Some(page as u32),
        }
    }

    /// The fetch that page `page` needs, or why it cannot be fetched.
    pub open spec fn spec_fetch(self, page: u64) -> Result<PageFetch, SectionReadError> {
        if self.offset_in_file() + page * PAGE_SIZE > u64::MAX {
            Err(SectionReadError::FileOffsetOverflow)
        } else {
            match self.spec_data_unit(page) {
                Some(unit) => Ok(
                    PageFetch {
                        page_in_section: page,
                        file_offset: (self.offset_in_file() + page * PAGE_SIZE) as u64,
                        data_unit: unit,
                    },
                ),
                None => Err(SectionReadError::MissingDataUnit),
            }
        }
    }

    /// A page is fetched from its place in the file (the section's offset plus the page's
    /// index times the page size). Its data unit is its entry in the data units; without
    /// data units, it is the page's index modulo 2^32. With data units, a page past them has
    /// none and cannot be read.
    pub proof fn lemma_fetch_of_page(self, page: u64)
        requires
            self.offset_in_file() + page * PAGE_SIZE <= u64::MAX,
        ensures
            self.units() is None ==> (self.spec_fetch(page) matches Ok(f) && f.page_in_section
                == page && f.file_offset == self.offset_in_file() + page * PAGE_SIZE && f.data_unit
                == page % 0x1_0000_0000),
            self.units() is Some && page < self.units()->0.len() && page <= usize::MAX ==> (self.spec_fetch(page) matches Ok(
                f,
            ) && f.page_in_section == page && f.file_offset == self.offset_in_file() + page
                * PAGE_SIZE && f.data_unit == self.units()->0[page as int]),
            self.units() is Some && self.units()->0.len() <= page <= usize::MAX ==> self.spec_fetch(
                page,
            ) == Err::<PageFetch, SectionReadError>(SectionReadError::MissingDataUnit),
    {
        assert((page as u32) as u64 == page % 0x1_0000_0000) by (bit_vector);
    }

    /// Creates a reader of the section at `section_offset` (in bytes) of length
    /// `section_length`, of the region `header_id`, with the VDUID (RFC 4122 bytes), the
    /// 32-byte key (tweak key, then data key) and the data units, if any. No page is
    /// cached.
    pub fn new(
        section_offset: u64,
        section_length: u64,
        header_id: u32,
        vduid: [u8; 16],
        full_key: [u8; 32],
        data_units: Option<Vec<u32>>,
    ) -> (r: Self)
        ensures
            r.offset_in_file() == section_offset,
            r.length() == section_length,
            r.generator().region_id_bytes() == le_bytes(header_id as nat, 4),
            r.generator().vduid_bytes() == guid_swap_fields(vduid@).subrange(0, 8),
            r.tweak_key() == full_key@.subrange(0, 16),
            r.data_key() == full_key@.subrange(16, 32),
            r.units() == (match data_units {
                Some(v) => Some(v@),
                None => None::<Seq<u32>>,
            }),
            r.cached_index() is None,
    {
        let mut tweak_key = [0u8; 16];
        let mut data_key = [0u8; 16];
        let mut i: usize = 0;
        while i < 16
            invariant
                i <= 16,
                tweak_key@.len() == 16,
                data_key@.len() == 16,
                forall|k: int| 0 <= k < i ==> tweak_key@[k] == full_key@[k],
                forall|k: int| 0 <= k < i ==> data_key@[k] == full_key@[16 + k],
            decreases 16 - i,
        {
            tweak_key[i] = full_key[i];
            data_key[i] = full_key[16 + i];
            i = i + 1;
        }
        assert(tweak_key@ =~= full_key@.subrange(0, 16));
        assert(data_key@ =~= full_key@.subrange(16, 32));
        Self {
            section_offset,
            section_length,
            tweak: TweakGenerator::new(header_id, vduid),
            tweak_key,
            data_key,
            data_units,
            cached_page_index: None,
            cached_page_plaintext: [0u8; PAGE_SIZE],
            cached_raw: Ghost(Seq::empty()),
        }
    }

    /// Starts a read of `len` bytes at `offset_in_section`: refused when the end of the
    /// range overflows or lies past the end of the section.
    pub fn start_read(&self, offset_in_section: u64, len: usize) -> (r: Result<
        SectionRead,
        SectionReadError,
    >)
        ensures
            offset_in_section + len > u64::MAX ==> r == Err::<SectionRead, SectionReadError>(
                SectionReadError::RangeOverflow,
            ),
            offset_in_section + len <= u64::MAX && offset_in_section + len > self.length() ==> r
                == Err::<SectionRead, SectionReadError>(SectionReadError::ReadPastEnd),
            offset_in_section + len <= self.length() ==> r == Ok::<SectionRead, SectionReadError>(
                SectionRead { offset: offset_in_section, written: 0 },
            ),
    {
        match offset_in_section.checked_add(len as u64) {
            None => Err(SectionReadError::RangeOverflow),
            Some(end) => if end > self.section_length {
                Err(SectionReadError::ReadPastEnd)
            } else {
                Ok(SectionRead { offset: offset_in_section, written: 0 })
            },
        }
    }

    /// The fetch that page `page_in_section` needs.
    fn fetch_for(&self, page_in_section: u64) -> (r: Result<PageFetch, SectionReadError>)
        requires
            page_in_section * PAGE_SIZE <= u64::MAX,
        ensures
            r == self.spec_fetch(page_in_section),
    {
        let file_offset = match self.section_offset.checked_add(page_in_section * PAGE_SIZE as u64) {
            Some(off) => off,
            None => return Err(SectionReadError::FileOffsetOverflow),
        };
        let data_unit = match &self.data_units {
            Some(units) => {
                let idx = page_in_section as usize;
                if idx < units.len() {
                    units[idx]
                } else {
                    return Err(SectionReadError::MissingDataUnit);
                }
            },
            None => page_in_section as u32,
        };
        Ok(PageFetch { page_in_section, file_offset, data_unit })
    }

    /// One step of the read `progress` into `out`: `Done` when `out` is full; bytes of the
    /// cached page copied to `out` when it is the page of the read's offset, which then
    /// advances; otherwise the fetch of that page, or why it cannot be fetched.
    pub fn step(&self, progress: &mut SectionRead, out: &mut [u8]) -> (r: Result<
        ReadStep,
        SectionReadError,
    >)
        requires
            old(progress).written <= old(out)@.len(),
            old(progress).offset + (old(out)@.len() - old(progress).written) <= u64::MAX,
        ensures
            final(out)@.len() == old(out)@.len(),
            final(progress).written <= final(out)@.len(),
            final(progress).offset + (final(out)@.len() - final(progress).written) == old(
                progress,
            ).offset + (old(out)@.len() - old(progress).written),
            ({
                let off = old(progress).offset;
                let w = old(progress).written as int;
                let page = off / PAGE_SIZE as u64;
                let at = off % PAGE_SIZE as u64;
                let left = old(out)@.len() - w;
                if left == 0 {
                    &&& r == Ok::<ReadStep, SectionReadError>(ReadStep::Done)
                    &&& *final(progress) == *old(progress)
                    &&& final(out)@ == old(out)@
                } else if self.cached_index() == Some(page as u64) {
                    let n = if left < PAGE_SIZE - at {
                        left
                    } else {
                        PAGE_SIZE - at
                    };
                    &&& r == Ok::<ReadStep, SectionReadError>(ReadStep::Copied(n as usize))
                    &&& self.cached_bytes() == self.page_plaintext(
                        page as u64,
                        self.cached_raw_page(),
                    )
                    &&& final(progress).offset == off + n
                    &&& final(progress).written == w + n
                    &&& final(out)@ == old(out)@.subrange(0, w) + self.cached_bytes().subrange(
                        at as int,
                        at + n,
                    ) + old(out)@.subrange(w + n, old(out)@.len() as int)
                } else {
                    &&& *final(progress) == *old(progress)
                    &&& final(out)@ == old(out)@
                    &&& match self.spec_fetch(page as u64) {
                        Ok(f) => r == Ok::<ReadStep, SectionReadError>(ReadStep::Fetch(f)),
                        Err(e) => r == Err::<ReadStep, SectionReadError>(e),
                    }
                }
            }),
    {
        proof {
            use_type_invariant(self);
        }
        let left = out.len() - progress.written;
        if left == 0 {
            return Ok(ReadStep::Done);
        }
        let page = progress.offset / PAGE_SIZE as u64;
        let at = (progress.offset % PAGE_SIZE as u64) as usize;
        let cached = match self.cached_page_index {
            Some(p) => p == page,
            None => false,
        };
        if !cached {
            return match self.fetch_for(page) {
                Ok(f) => Ok(ReadStep::Fetch(f)),
                Err(e) => Err(e),
            };
        }
        let n = if left < PAGE_SIZE - at {
            left
        } else {
            PAGE_SIZE - at
        };
        let w = progress.written;
        let ghost old_out = out@;
        let out_len = out.len();
        let mut i: usize = 0;
        while i < n
            invariant
                out_len == old_out.len(),
                i <= n,
                w + n <= old_out.len(),
                at + n <= PAGE_SIZE,
                out@.len() == old_out.len(),
                self.cached_page_plaintext@.len() == PAGE_SIZE,
                forall|k: int| 0 <= k < w ==> out@[k] == old_out[k],
                forall|k: int| w <= k < w + i ==> #[trigger] out@[k] == self.cached_page_plaintext@[at + k - w],
                forall|k: int| w + i <= k < old_out.len() ==> out@[k] == old_out[k],
            decreases n - i,
        {
            out[w + i] = self.cached_page_plaintext[at + i];
            i = i + 1;
        }
        assert(out@ =~= old_out.subrange(0, w as int) + self.cached_page_plaintext@.subrange(
            at as int,
            at + n,
        ) + old_out.subrange(w + n, old_out.len() as int));
        progress.offset = progress.offset + n as u64;
        progress.written = w + n;
        Ok(ReadStep::Copied(n))
    }

    /// Takes `raw`, the bytes of the page `fetch` asked for, decrypts it with the tweak of
    /// its data unit, and caches it.
    pub fn install_page(&mut self, fetch: PageFetch, raw: [u8; PAGE_SIZE])
        requires
            old(self).spec_fetch(fetch.page_in_section) == Ok::<PageFetch, SectionReadError>(fetch),
        ensures
            final(self).cached_raw_page() == raw@,
            final(self).cached_bytes() == old(self).page_plaintext(fetch.page_in_section, raw@),
            final(self).cached_index() == Some(fetch.page_in_section),
            final(self).cached_bytes() == xts_decrypt(
                old(self).tweak_key(),
                old(self).data_key(),
                old(self).generator().spec_with_data_unit(fetch.data_unit),
                raw@,
            ),
            final(self).offset_in_file() == old(self).offset_in_file(),
            final(self).length() == old(self).length(),
            final(self).generator() == old(self).generator(),
            final(self).tweak_key() == old(self).tweak_key(),
            final(self).data_key() == old(self).data_key(),
            final(self).units() == old(self).units(),
    {
        let tweak = self.tweak.with_data_unit(fetch.data_unit);
        let mut page = raw;
        decrypt_page_xts(&mut page, tweak, &self.tweak_key, &self.data_key);
        self.cached_page_index = None;
        self.cached_page_plaintext = page;
        self.cached_raw = Ghost(raw@);
        self.cached_page_index = Some(fetch.page_in_section);
    }
}

} // verus!
