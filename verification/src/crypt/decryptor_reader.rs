//! The page-decrypting reader over a whole XVC file made of consecutive regions.
//!
//! The reader holds the decisions: which bytes a read returns, when a new page must be
//! fetched, how a seek moves. Fetching a page from the underlying reader is left to the
//! caller, who hands the raw page to [`DecryptorReader::load_page`].

use crate::crypt::region::Region;
use crate::crypt::seek::{seek_plan, seek_position, spec_seek_plan, spec_seek_position, SeekError, SeekPlan, SeekTarget};
use crate::layout::PAGE_SIZE;
use vstd::prelude::*;

verus! {

/// Every region starts where the one before it ends, and the first starts at page 0.
pub open spec fn consecutive(rs: Seq<Region>) -> bool {
    forall|i: int|
        0 <= i < rs.len() ==> #[trigger] rs[i].start() == (if i == 0 {
            0
        } else {
            rs[i - 1].end() as int
        })
}

/// Every region is well formed.
pub open spec fn all_wf(rs: Seq<Region>) -> bool {
    forall|i: int| 0 <= i < rs.len() ==> #[trigger] rs[i].wf()
}

/// The length in bytes of the file that the regions span.
pub open spec fn regions_byte_len(rs: Seq<Region>) -> int {
    if rs.len() == 0 {
        0
    } else {
        rs.last().end() * PAGE_SIZE
    }
}

/// The plaintext of raw page `raw` when it is page `page` of the file and `region` is a
/// region that holds it.
pub open spec fn page_plaintext(region: Region, page: u64, raw: Seq<u8>) -> Seq<u8> {
    match region.decryptor() {
        Some(d) => d.spec_decrypt_at(((page - region.start()) as usize) as int, raw),
        None => raw,
    }
}

/// The plaintext of raw page `raw` when it is page `page` of the file: decrypted by the
/// decryptor of the region that holds it, if that region is encrypted.
pub open spec fn file_page_plaintext(rs: Seq<Region>, page: u64, raw: Seq<u8>) -> Seq<u8> {
    let i = choose|i: int| 0 <= i < rs.len() && #[trigger] rs[i].start() <= page < rs[i].end();
    page_plaintext(rs[i], page, raw)
}

/// In consecutive well-formed regions, an earlier region ends before a later one starts.
pub proof fn lemma_consecutive_ordered(rs: Seq<Region>, i: int, j: int)
    requires
        consecutive(rs),
        all_wf(rs),
        0 <= i < j < rs.len(),
    ensures
        rs[i].end() <= rs[j].start(),
    decreases j - i,
{
    assert(rs[j].start() == rs[j - 1].end());
    if i < j - 1 {
        lemma_consecutive_ordered(rs, i, j - 1);
        assert(rs[j - 1].wf());
    }
}

/// In consecutive well-formed regions, at most one region holds a page.
pub proof fn lemma_region_unique(rs: Seq<Region>, p: u64, i: int, j: int)
    requires
        consecutive(rs),
        all_wf(rs),
        0 <= i < rs.len(),
        0 <= j < rs.len(),
        rs[i].start() <= p < rs[i].end(),
        rs[j].start() <= p < rs[j].end(),
    ensures
        i == j,
{
    if i < j {
        lemma_consecutive_ordered(rs, i, j);
    } else if j < i {
        lemma_consecutive_ordered(rs, j, i);
    }
}

/// Finds, by binary search, the region that holds page `p`.
fn find_region(rs: &Vec<Region>, p: u64) -> (i: usize)
    requires
        consecutive(rs@),
        all_wf(rs@),
        rs@.len() > 0,
        p < rs@.last().end(),
    ensures
        i < rs@.len(),
        rs@[i as int].start() <= p < rs@[i as int].end(),
{
    let mut lo: usize = 0;
    let mut hi: usize = rs.len();
    assert(rs@[0].start() == 0);
    while lo + 1 < hi
        invariant
            consecutive(rs@),
            all_wf(rs@),
            0 <= lo < hi <= rs@.len(),
            rs@[lo as int].start() <= p,
            p < rs@[hi - 1].end(),
        decreases hi - lo,
    {
        let mid = lo + (hi - lo) / 2;
        let s = rs[mid].first_page();
        let e = rs[mid].end_page();
        if p < s {
            assert(rs@[mid as int].start() == rs@[mid - 1].end());
            hi = mid;
        } else if p >= e {
            assert(rs@[mid + 1].start() == rs@[mid as int].end());
            lo = mid + 1;
        } else {
            return mid;
        }
    }
    let _ = rs[lo].first_page();
    lo
}

/// Whether every region starts where the one before it ends, the first at page 0.
pub fn regions_consecutive(regions: &Vec<Region>) -> (b: bool)
    ensures
        b == consecutive(regions@),
        b ==> all_wf(regions@),
{
    let mut acc: u64 = 0;
    let mut i: usize = 0;
    while i < regions.len()
        invariant
            i <= regions@.len(),
            forall|k: int| 0 <= k < i ==> #[trigger] regions@[k].start() == (if k == 0 {
                0
            } else {
                regions@[k - 1].end() as int
            }),
            forall|k: int| 0 <= k < i ==> #[trigger] regions@[k].wf(),
            acc == (if i == 0 {
                0
            } else {
                regions@[i - 1].end() as int
            }),
        decreases regions@.len() - i,
    {
        let start = regions[i].first_page();
        let end = regions[i].end_page();
        if acc != start {
            assert(!consecutive(regions@)) by {
                assert(regions@[i as int].start() != (if i == 0 {
                    0
                } else {
                    regions@[i - 1].end() as int
                }));
            }
            return false;
        }
        acc = end;
        i = i + 1;
    }
    true
}

/// Why [`DecryptorReader::new`] refused its regions.
#[derive(Debug)]
pub enum NewDecryptorReaderError {
    /// The regions are not consecutive from page 0; they are handed back.
    NonConsecutiveRegions(Vec<Region>),
}

/// Reads a whole XVC file, decrypting each encrypted region's pages as it goes.
pub struct DecryptorReader {
    /// The offset the reader is positioned at, from the start of the file.
    read_offset: u64,
    /// Each region: the pages it spans and its decryptor, if it is encrypted.
    regions: Vec<Region>,
    /// The decrypted page that holds the read offset.
    page: [u8; PAGE_SIZE],
    /// The index and the raw bytes of the page last loaded, if any.
    held: Ghost<Option<(u64, Seq<u8>)>>,
}

impl DecryptorReader {
    #[verifier::type_invariant]
    closed spec fn reader_invariant(self) -> bool {
        &&& consecutive(self.regions@)
        &&& all_wf(self.regions@)
        &&& regions_byte_len(self.regions@) <= u64::MAX
        &&& self.read_offset <= regions_byte_len(self.regions@)
        &&& self.held@ matches Some((p, raw)) ==> self.page@ == file_page_plaintext(
            self.regions@,
            p,
            raw,
        )
    }

    /// The index and the raw bytes of the page last loaded, if any: the page the reader
    /// holds is that page's plaintext.
    pub closed spec fn held_page(self) -> Option<(u64, Seq<u8>)> {
        self.held@
    }

    /// Whether the page the reader holds is the one of its position.
    pub open spec fn holds_current_page(self) -> bool {
        self.held_page() matches Some((p, _)) && p == self.spec_current_page()
    }

    /// The current position.
    pub closed spec fn offset(self) -> u64 {
        self.read_offset
    }

    /// The regions the reader spans.
    pub closed spec fn region_list(self) -> Seq<Region> {
        self.regions@
    }

    /// The page the reader holds.
    pub closed spec fn page_bytes(self) -> Seq<u8> {
        self.page@
    }

    /// The length in bytes of the file.
    pub open spec fn spec_len(self) -> int {
        regions_byte_len(self.region_list())
    }

    /// The index of the page that holds the position.
    pub open spec fn spec_current_page(self) -> u64 {
        (self.offset() / PAGE_SIZE as u64) as u64
    }

    /// Whether the position has reached the end of the file.
    pub open spec fn spec_finished(self) -> bool {
        self.offset() >= self.spec_len()
    }

    /// The number of bytes left in the page of the current position.
    pub open spec fn spec_remaining_len(self) -> int {
        if self.spec_finished() {
            0
        } else {
            PAGE_SIZE - self.offset() % PAGE_SIZE as u64
        }
    }

    /// Creates a reader over consecutive regions, positioned at offset 0. Its page must then
    /// be loaded with [`Self::load_page`] unless the file is empty.
    pub fn new(regions: Vec<Region>) -> (r: Result<Self, NewDecryptorReaderError>)
        requires
            consecutive(regions@) ==> regions_byte_len(regions@) <= u64::MAX,
        ensures
            consecutive(regions@) <==> r is Ok,
            r matches Ok(reader) ==> {
                &&& reader.offset() == 0
                &&& reader.region_list() == regions@
                &&& reader.held_page() is None
            },
            r matches Err(NewDecryptorReaderError::NonConsecutiveRegions(v)) ==> v@ == regions@,
    {
        if !regions_consecutive(&regions) {
            return Err(NewDecryptorReaderError::NonConsecutiveRegions(regions));
        }
        Ok(Self { read_offset: 0, regions, page: [0u8; PAGE_SIZE], held: Ghost(None) })
    }

    /// The length in bytes of the file: the end of the last region, in bytes.
    pub fn reader_len(&self) -> (n: u64)
        ensures
            n == self.spec_len(),
    {
        proof {
            use_type_invariant(self);
        }
        if self.regions.len() == 0 {
            0
        } else {
            let last = self.regions.len() - 1;
            self.regions[last].end_page() * PAGE_SIZE as u64
        }
    }

    /// Whether the position has reached the end of the file.
    pub fn is_finished(&self) -> (b: bool)
        ensures
            b == self.spec_finished(),
    {
        self.read_offset >= self.reader_len()
    }

    /// The index of the page that holds the position.
    pub fn current_page(&self) -> (p: u64)
        ensures
            p == self.spec_current_page(),
    {
        self.read_offset / PAGE_SIZE as u64
    }

    /// The current position.
    pub fn stream_position(&self) -> (p: u64)
        ensures
            p == self.offset(),
    {
        self.read_offset
    }

    /// Takes `raw`, the raw bytes of the page that starts at the position, and holds its
    /// plaintext: decrypted by the decryptor of the region that holds the page, if any.
    pub fn load_page(&mut self, raw: [u8; PAGE_SIZE])
        requires
            old(self).offset() % PAGE_SIZE as u64 == 0,
            !old(self).spec_finished(),
        ensures
            final(self).offset() == old(self).offset(),
            final(self).region_list() == old(self).region_list(),
            forall|i: int|
                0 <= i < old(self).region_list().len() && #[trigger] old(
                    self,
                ).region_list()[i].start() <= old(self).spec_current_page() && old(
                    self,
                ).spec_current_page() < old(self).region_list()[i].end() ==> final(self).page_bytes()
                    == page_plaintext(
                    old(self).region_list()[i],
                    old(self).spec_current_page(),
                    raw@,
                ),
            final(self).held_page() == Some((old(self).spec_current_page(), raw@)),
            final(self).page_bytes() == file_page_plaintext(
                old(self).region_list(),
                old(self).spec_current_page(),
                raw@,
            ),
    {
        proof {
            use_type_invariant(&*self);
        }
        let current_page = self.current_page();
        let i = find_region(&self.regions, current_page);
        let mut page = raw;
        let page_in_region = (current_page - self.regions[i].first_page()) as usize;
        self.regions[i].decrypt_at(page_in_region, &mut page);
        proof {
            assert forall|j: int|
                0 <= j < self.regions@.len() && #[trigger] self.regions@[j].start()
                    <= current_page && current_page < self.regions@[j].end() implies j == i by {
                lemma_region_unique(self.regions@, current_page, i as int, j);
            }
            let k = choose|k: int|
                0 <= k < self.regions@.len() && #[trigger] self.regions@[k].start() <= current_page
                    < self.regions@[k].end();
            assert(0 <= k < self.regions@.len() && self.regions@[k].start() <= current_page
                < self.regions@[k].end());
            assert(k == i);
        }
        self.held = Ghost(None);
        self.page = page;
        self.held = Ghost(Some((current_page, raw@)));
    }

    /// Copies into `buf` the next bytes of the current page, as many as fit, and advances
    /// the position by their number, which it returns with whether the position has moved
    /// into the next page (which must then be loaded unless the file has ended).
    ///
    /// Returns 0 when `buf` is empty or the file has ended.
    pub fn read(&mut self, buf: &mut [u8]) -> (r: (usize, bool))
        ensures
            ({
                let n = r.0;
                let off = old(self).offset();
                let at = off % PAGE_SIZE as u64;
                &&& n == (if old(buf)@.len() == 0 {
                    0
                } else if old(buf)@.len() < old(self).spec_remaining_len() {
                    old(buf)@.len() as int
                } else {
                    old(self).spec_remaining_len()
                })
                &&& final(buf)@.len() == old(buf)@.len()
                &&& final(buf)@.subrange(0, n as int) == old(self).page_bytes().subrange(
                    at as int,
                    at + n,
                )
                &&& final(buf)@.subrange(n as int, old(buf)@.len() as int) == old(buf)@.subrange(
                    n as int,
                    old(buf)@.len() as int,
                )
                &&& final(self).offset() == off + n
                &&& r.1 == ((off + n) / (PAGE_SIZE as int) > (off as int) / (PAGE_SIZE as int))
                &&& final(self).region_list() == old(self).region_list()
                &&& final(self).page_bytes() == old(self).page_bytes()
                &&& final(self).held_page() == old(self).held_page()
                &&& (old(self).held_page() matches Some((p, raw)) ==> final(buf)@.subrange(
                    0,
                    n as int,
                ) == file_page_plaintext(old(self).region_list(), p, raw).subrange(
                    at as int,
                    at + n,
                ))
                &&& (r.1 ==> final(self).offset() % PAGE_SIZE as u64 == 0
                    && final(self).spec_current_page() == old(self).spec_current_page() + 1)
            }),
    {
        proof {
            use_type_invariant(&*self);
        }
        if buf.len() == 0 {
            assert(buf@.subrange(0, 0) =~= self.page@.subrange(
                (self.read_offset % PAGE_SIZE as u64) as int,
                (self.read_offset % PAGE_SIZE as u64) as int,
            ));
            return (0, false);
        }
        let remaining = if self.is_finished() {
            0
        } else {
            PAGE_SIZE - (self.read_offset % PAGE_SIZE as u64) as usize
        };
        let bytes = if buf.len() < remaining {
            buf.len()
        } else {
            remaining
        };
        let at = (self.read_offset % PAGE_SIZE as u64) as usize;
        let ghost old_buf = buf@;
        let mut i: usize = 0;
        while i < bytes
            invariant
                i <= bytes,
                bytes <= old_buf.len(),
                at + bytes <= PAGE_SIZE,
                buf@.len() == old_buf.len(),
                self.page@.len() == PAGE_SIZE,
                forall|k: int| 0 <= k < i ==> buf@[k] == self.page@[at + k],
                forall|k: int| i <= k < old_buf.len() ==> buf@[k] == old_buf[k],
            decreases bytes - i,
        {
            buf[i] = self.page[at + i];
            i = i + 1;
        }
        assert(buf@.subrange(0, bytes as int) =~= self.page@.subrange(at as int, at + bytes));
        assert(buf@.subrange(bytes as int, old_buf.len() as int) =~= old_buf.subrange(
            bytes as int,
            old_buf.len() as int,
        ));
        let current_page = self.read_offset / PAGE_SIZE as u64;
        let next_off = self.read_offset + bytes as u64;
        let next_page = next_off / PAGE_SIZE as u64;
        self.read_offset = next_off;
        (bytes, next_page > current_page)
    }

    /// Moves the position to `offset`, which must not lie past the end of the file.
    pub fn set_offset(&mut self, offset: u64)
        requires
            offset <= old(self).spec_len(),
        ensures
            final(self).offset() == offset,
            final(self).region_list() == old(self).region_list(),
            final(self).page_bytes() == old(self).page_bytes(),
            final(self).held_page() == old(self).held_page(),
    {
        proof {
            use_type_invariant(&*self);
        }
        self.read_offset = offset;
    }

    /// Plans a seek: the target must lie between the start and the end of the file. When
    /// the target lies in another page, the inner reader must be moved to that page
    /// (unless it is the next one, where the inner reader already stands), the position set
    /// to the page's start, the page loaded, and the position set to the target.
    pub fn plan_seek(&self, target: SeekTarget) -> (r: Result<SeekPlan, SeekError>)
        ensures
            match spec_seek_position(target, self.spec_len() as u64, self.offset()) {
                Some(p) => if p <= self.spec_len() {
                    r == Ok::<SeekPlan, SeekError>(spec_seek_plan(self.offset(), p, 0, true))
                } else {
                    r == Err::<SeekPlan, SeekError>(SeekError::InvalidPosition)
                },
                None => r == Err::<SeekPlan, SeekError>(SeekError::InvalidPosition),
            },
            r matches Ok(plan) ==> plan.position <= self.spec_len() && plan.page_start
                <= plan.position,
    {
        let len = self.reader_len();
        match seek_position(target, len, self.read_offset) {
            Some(p) => if p <= len {
                Ok(seek_plan(self.read_offset, p, 0, true))
            } else {
                Err(SeekError::InvalidPosition)
            },
            None => Err(SeekError::InvalidPosition),
        }
    }
}

} // verus!
