//! The page-decrypting reader over a single XVC region.
//!
//! As with [`crate::crypt::decryptor_reader`], the reader makes the decisions and the
//! caller fetches raw pages from the underlying reader.

use crate::crypt::region::RegionDecryptor;
use crate::crypt::seek::{seek_plan, seek_position, spec_seek_plan, spec_seek_position, SeekError, SeekPlan, SeekTarget};
use crate::layout::PAGE_SIZE;
use core::ops::Range;
use vstd::prelude::*;

verus! {

/// Decrypts the pages of one XVC region as its data is read.
pub struct RegionReader {
    /// Where the region starts in the underlying reader, in bytes (a multiple of the page
    /// size).
    region_start: u64,
    /// Where the region ends in the underlying reader, in bytes (a multiple of the page
    /// size).
    region_end: u64,
    /// The offset the reader is positioned at, from the start of the region.
    read_offset: u64,
    /// The keys and data units that decrypt whole pages.
    decryptor: RegionDecryptor,
    /// The decrypted page that holds the read offset.
    page: [u8; PAGE_SIZE],
    /// The index in the region and the raw bytes of the page last loaded, if any.
    held: Ghost<Option<(u64, Seq<u8>)>>,
}

impl RegionReader {
    #[verifier::type_invariant]
    closed spec fn reader_invariant(self) -> bool {
        &&& self.region_start < self.region_end
        &&& self.region_start % PAGE_SIZE as u64 == 0
        &&& self.region_end % PAGE_SIZE as u64 == 0
        &&& self.held@ matches Some((p, raw)) ==> self.page@ == self.decryptor.spec_decrypt_at(
            (p as usize) as int,
            raw,
        )
    }

    /// The index in the region and the raw bytes of the page last loaded, if any: the page
    /// the reader holds is that page's plaintext.
    pub closed spec fn held_page(self) -> Option<(u64, Seq<u8>)> {
        self.held@
    }

    /// The index in the region of the page that holds the position.
    pub open spec fn spec_current_page(self) -> u64 {
        (self.offset() / PAGE_SIZE as u64) as u64
    }

    /// Whether the page the reader holds is the one of its position.
    pub open spec fn holds_current_page(self) -> bool {
        self.held_page() matches Some((p, _)) && p == self.spec_current_page()
    }

    /// Where the region starts in the underlying reader.
    pub closed spec fn start(self) -> u64 {
        self.region_start
    }

    /// Where the region ends in the underlying reader.
    pub closed spec fn end(self) -> u64 {
        self.region_end
    }

    /// The current position, from the start of the region.
    pub closed spec fn offset(self) -> u64 {
        self.read_offset
    }

    /// The decryptor of the region.
    pub closed spec fn region_decryptor(self) -> RegionDecryptor {
        self.decryptor
    }

    /// The page the reader holds.
    pub closed spec fn page_bytes(self) -> Seq<u8> {
        self.page@
    }

    /// The length of the region in bytes.
    pub open spec fn spec_len(self) -> int {
        self.end() - self.start()
    }

    /// Whether the position has reached (or passed) the end of the region.
    pub open spec fn spec_finished(self) -> bool {
        self.offset() >= self.spec_len()
    }

    /// The number of bytes left in the page of the current position.
    pub open spec fn spec_remaining_len(self) -> int {
        if self.spec_finished() {
            0
        } else {
            PAGE_SIZE - self.offset() % PAGE_SIZE as u64
        }
    }

    /// Creates a reader over the region spanning `region` (in bytes) of the underlying
    /// reader, positioned at its start. Its first page must then be loaded with
    /// [`Self::load_page`].
    pub fn new(region: Range<u64>, decryptor: RegionDecryptor) -> (r: Self)
        requires
            region.end > region.start,
            region.start % PAGE_SIZE as u64 == 0,
            region.end % PAGE_SIZE as u64 == 0,
            decryptor.units().len() == 0 || decryptor.units().len() == (region.end - region.start)
                / PAGE_SIZE as int,
        ensures
            r.start() == region.start,
            r.end() == region.end,
            r.offset() == 0,
            r.region_decryptor() == decryptor,
            r.held_page() is None,
    {
        Self {
            region_start: region.start,
            region_end: region.end,
            read_offset: 0,
            decryptor,
            page: [0u8; PAGE_SIZE],
            held: Ghost(None),
        }
    }

    /// Where the region starts in the underlying reader.
    pub fn region_start(&self) -> (s: u64)
        ensures
            s == self.start(),
    {
        self.region_start
    }

    /// The length of the region in bytes.
    pub fn region_len(&self) -> (n: u64)
        ensures
            n == self.spec_len(),
    {
        proof {
            use_type_invariant(self);
        }
        self.region_end - self.region_start
    }

    /// Whether the position has reached (or passed) the end of the region.
    pub fn is_finished(&self) -> (b: bool)
        ensures
            b == self.spec_finished(),
    {
        self.read_offset >= self.region_len()
    }

    /// The current position, from the start of the region.
    pub fn stream_position(&self) -> (p: u64)
        ensures
            p == self.offset(),
    {
        self.read_offset
    }

    /// Takes `raw`, the raw bytes of the page that starts at the position, and holds its
    /// plaintext, decrypted as the page at that index of the region.
    pub fn load_page(&mut self, raw: [u8; PAGE_SIZE])
        requires
            old(self).offset() % PAGE_SIZE as u64 == 0,
            !old(self).spec_finished(),
        ensures
            final(self).offset() == old(self).offset(),
            final(self).start() == old(self).start(),
            final(self).end() == old(self).end(),
            final(self).region_decryptor() == old(self).region_decryptor(),
            final(self).page_bytes() == old(self).region_decryptor().spec_decrypt_at(
                ((old(self).offset() / PAGE_SIZE as u64) as usize) as int,
                raw@,
            ),
            final(self).held_page() == Some((old(self).spec_current_page(), raw@)),
    {
        proof {
            use_type_invariant(&*self);
        }
        let page_in_region = (self.read_offset / PAGE_SIZE as u64) as usize;
        let mut page = raw;
        self.decryptor.decrypt_at(page_in_region, &mut page);
        self.held = Ghost(None);
        self.page = page;
        self.held = Ghost(Some(((self.read_offset / PAGE_SIZE as u64) as u64, raw@)));
    }

    /// Copies into `buf` the next bytes of the current page, as many as fit, and advances
    /// the position by their number, which it returns with whether the position has moved
    /// into the next page (which must then be loaded unless the region has ended).
    ///
    /// Returns 0 when `buf` is empty or the region has ended.
    pub fn read(&mut self, buf: &mut [u8]) -> (r: (usize, bool))
        ensures
            ({
                let n = r.0;
                let off = old(self).offset();
                let at = off % PAGE_SIZE as u64;
                &&& n == (if old(buf)@.len() == 0 {
                    0
                } else if old(buf)@.len() < old(self).spec_remaining_len() {
                    old(buf)@.len() as int
                } else {
                    old(self).spec_remaining_len()
                })
                &&& final(buf)@.len() == old(buf)@.len()
                &&& final(buf)@.subrange(0, n as int) == old(self).page_bytes().subrange(
                    at as int,
                    at + n,
                )
                &&& final(buf)@.subrange(n as int, old(buf)@.len() as int) == old(buf)@.subrange(
                    n as int,
                    old(buf)@.len() as int,
                )
                &&& final(self).offset() == off + n
                &&& r.1 == ((off + n) / (PAGE_SIZE as int) > (off as int) / (PAGE_SIZE as int))
                &&& final(self).start() == old(self).start()
                &&& final(self).end() == old(self).end()
                &&& final(self).region_decryptor() == old(self).region_decryptor()
                &&& final(self).page_bytes() == old(self).page_bytes()
                &&& final(self).held_page() == old(self).held_page()
                &&& (old(self).held_page() matches Some((p, raw)) ==> final(buf)@.subrange(
                    0,
                    n as int,
                ) == old(self).region_decryptor().spec_decrypt_at((p as usize) as int, raw).subrange(
                    at as int,
                    at + n,
                ))
                &&& (r.1 ==> final(self).offset() % PAGE_SIZE as u64 == 0
                    && final(self).spec_current_page() == old(self).spec_current_page() + 1)
            }),
    {
        proof {
            use_type_invariant(&*self);
        }
        if buf.len() == 0 {
            assert(buf@.subrange(0, 0) =~= self.page@.subrange(
                (self.read_offset % PAGE_SIZE as u64) as int,
                (self.read_offset % PAGE_SIZE as u64) as int,
            ));
            return (0, false);
        }
        let remaining = if self.is_finished() {
            0
        } else {
            PAGE_SIZE - (self.read_offset % PAGE_SIZE as u64) as usize
        };
        let bytes = if buf.len() < remaining {
            buf.len()
        } else {
            remaining
        };
        let at = (self.read_offset % PAGE_SIZE as u64) as usize;
        let ghost old_buf = buf@;
        let mut i: usize = 0;
        while i < bytes
            invariant
                i <= bytes,
                bytes <= old_buf.len(),
                at + bytes <= PAGE_SIZE,
                buf@.len() == old_buf.len(),
                self.page@.len() == PAGE_SIZE,
                forall|k: int| 0 <= k < i ==> buf@[k] == self.page@[at + k],
                forall|k: int| i <= k < old_buf.len() ==> buf@[k] == old_buf[k],
            decreases bytes - i,
        {
            buf[i] = self.page[at + i];
            i = i + 1;
        }
        assert(buf@.subrange(0, bytes as int) =~= self.page@.subrange(at as int, at + bytes));
        assert(buf@.subrange(bytes as int, old_buf.len() as int) =~= old_buf.subrange(
            bytes as int,
            old_buf.len() as int,
        ));
        assert(bytes > 0 ==> self.read_offset + bytes <= self.region_end - self.region_start) by {
            let len = self.region_end - self.region_start;
            assert(len % PAGE_SIZE as int == 0);
        }
        let current_page = self.read_offset / PAGE_SIZE as u64;
        let next_off = self.read_offset + bytes as u64;
        let next_page = next_off / PAGE_SIZE as u64;
        self.read_offset = next_off;
        (bytes, next_page > current_page)
    }

    /// Moves the position to `offset`, from the start of the region.
    pub fn set_offset(&mut self, offset: u64)
        ensures
            final(self).offset() == offset,
            final(self).start() == old(self).start(),
            final(self).end() == old(self).end(),
            final(self).region_decryptor() == old(self).region_decryptor(),
            final(self).page_bytes() == old(self).page_bytes(),
            final(self).held_page() == old(self).held_page(),
    {
        proof {
            use_type_invariant(&*self);
        }
        self.read_offset = offset;
    }

    /// Plans a seek: the target must not be negative nor overflow; it may lie past the end
    /// of the region. When it lies in another page, the inner reader must be moved to that
    /// page, the position set to the page's start, the page loaded unless the region has
    /// ended, and the position set to the target.
    pub fn plan_seek(&self, target: SeekTarget) -> (r: Result<SeekPlan, SeekError>)
        requires
            spec_seek_position(target, self.spec_len() as u64, self.offset()) matches Some(p) ==> (p
                / PAGE_SIZE as u64) * PAGE_SIZE + self.start() <= u64::MAX,
        ensures
            match spec_seek_position(target, self.spec_len() as u64, self.offset()) {
                Some(p) => r == Ok::<SeekPlan, SeekError>(
                    spec_seek_plan(self.offset(), p, self.start(), false),
                ),
                None => r == Err::<SeekPlan, SeekError>(SeekError::InvalidPosition),
            },
    {
        let len = self.region_len();
        match seek_position(target, len, self.read_offset) {
            Some(p) => Ok(seek_plan(self.read_offset, p, self.region_start, false)),
            None => Err(SeekError::InvalidPosition),
        }
    }
}

} // verus!
