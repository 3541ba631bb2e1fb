//! A stream over the level-0 entries of an XVD hash tree, checked page by page against the
//! level-1 hashes.
//!
//! Reading from the underlying (asynchronous) reader is left to the caller: the stream
//! says when it needs a page and takes the bytes the reader produced.

use crate::layout::{HASH_ENTRIES_IN_PAGE, HASH_ENTRY_LENGTH, PAGE_SIZE};
use sha2::Digest;
use vstd::prelude::*;

verus! {

/// A hash entry: the first bytes of a SHA-256 digest.
pub type HashEntry = [u8; HASH_ENTRY_LENGTH];

/// The SHA-256 digest of `data`.
pub uninterp spec fn sha256(data: Seq<u8>) -> Seq<u8>;

/// The SHA-256 digest of a page, by `sha2::Sha256::digest`.
///
/// Claimed: the result is the SHA-256 digest of the page's bytes.
#[verifier::external_body]
fn sha256_digest(data: &[u8; PAGE_SIZE]) -> (r: [u8; 32])
    ensures
        r@ == sha256(data@),
{
    sha2::Sha256::digest(data).into()
}

/// The `i`-th hash entry of a page.
pub open spec fn entry_at(page: Seq<u8>, i: int) -> Seq<u8> {
    page.subrange(HASH_ENTRY_LENGTH * i, HASH_ENTRY_LENGTH * i + HASH_ENTRY_LENGTH)
}

/// The number of level-1 hashes (one per page) that `level_0_hashes` entries need.
pub open spec fn pages_for(level_0_hashes: int) -> int {
    (level_0_hashes + HASH_ENTRIES_IN_PAGE - 1) / (HASH_ENTRIES_IN_PAGE as int)
}

/// Why filling a page failed.
#[derive(Clone, Copy, Debug, PartialEq, Eq, Structural)]
pub enum PageStreamError {
    /// The reader ended before the page was full.
    UnexpectedEof,
}

/// Collects the bytes of a reader into whole pages.
pub struct PageStream {
    buf: [u8; PAGE_SIZE],
    filled: usize,
}

impl PageStream {
    #[verifier::type_invariant]
    closed spec fn stream_invariant(self) -> bool {
        self.filled <= PAGE_SIZE
    }

    /// The page buffer.
    pub closed spec fn bytes(self) -> Seq<u8> {
        self.buf@
    }

    /// How many bytes of the page have been filled.
    pub closed spec fn filled_len(self) -> nat {
        self.filled as nat
    }

    /// The buffer holds one page, of which at most a page is filled.
    pub open spec fn wf(self) -> bool {
        &&& self.bytes().len() == PAGE_SIZE
        &&& self.filled_len() <= PAGE_SIZE
    }

    /// Whether the page is full.
    pub open spec fn spec_full(self) -> bool {
        self.filled_len() == PAGE_SIZE
    }

    /// An empty stream.
    pub fn new() -> (s: Self)
        ensures
            s.filled_len() == 0,
            s.bytes() == Seq::new(PAGE_SIZE as nat, |i: int| 0u8),
            s.wf(),
    {
        let s = Self { buf: [0u8; PAGE_SIZE], filled: 0 };
        assert(s.buf@ =~= Seq::new(PAGE_SIZE as nat, |i: int| 0u8));
        s
    }

    /// The page, if it is full.
    #[inline]
    pub fn buffer(&self) -> (r: Option<&[u8; PAGE_SIZE]>)
        ensures
            self.spec_full() ==> (r matches Some(p) && p@ == self.bytes()),
            !self.spec_full() ==> r is None,
            self.wf(),
    {
        proof {
            use_type_invariant(self);
        }
        if self.filled == PAGE_SIZE {
            Some(&self.buf)
        } else {
            None
        }
    }

    /// Whether the page is full.
    pub fn is_full(&self) -> (b: bool)
        ensures
            b == self.spec_full(),
            self.wf(),
    {
        proof {
            use_type_invariant(self);
        }
        self.filled == PAGE_SIZE
    }

    /// How many bytes the page still lacks.
    pub fn unfilled_len(&self) -> (n: usize)
        ensures
            n == PAGE_SIZE - self.filled_len(),
            self.wf(),
    {
        proof {
            use_type_invariant(self);
        }
        PAGE_SIZE - self.filled
    }

    /// Starts filling the next page: a full page is dropped; a partly filled one is kept.
    pub fn begin_page(&mut self)
        ensures
            old(self).spec_full() ==> final(self).filled_len() == 0,
            !old(self).spec_full() ==> final(self).filled_len() == old(self).filled_len(),
            final(self).bytes() == old(self).bytes(),
            final(self).wf(),
    {
        proof {
            use_type_invariant(&*self);
        }
        if self.filled == PAGE_SIZE {
            self.filled = 0;
        }
    }

    /// Appends `data`, the bytes one read of the reader produced, to the page; returns
    /// whether the page is now full. A read that produced nothing means the reader ended
    /// before the page was full.
    pub fn fill(&mut self, data: &[u8]) -> (r: Result<bool, PageStreamError>)
        requires
            old(self).filled_len() < PAGE_SIZE,
            data@.len() <= PAGE_SIZE - old(self).filled_len(),
        ensures
            data@.len() == 0 ==> r == Err::<bool, PageStreamError>(PageStreamError::UnexpectedEof)
                && *final(self) == *old(self),
            data@.len() > 0 ==> {
                &&& final(self).filled_len() == old(self).filled_len() + data@.len()
                &&& final(self).bytes() == old(self).bytes().subrange(
                    0,
                    old(self).filled_len() as int,
                ) + data@ + old(self).bytes().subrange(
                    (old(self).filled_len() + data@.len()) as int,
                    PAGE_SIZE as int,
                )
                &&& r == Ok::<bool, PageStreamError>(final(self).spec_full())
            },
            final(self).wf(),
    {
        proof {
            use_type_invariant(&*self);
        }
        if data.len() == 0 {
            return Err(PageStreamError::UnexpectedEof);
        }
        let start = self.filled;
        let n = data.len();
        let ghost old_buf = self.buf@;
        let mut buf = self.buf;
        let mut i: usize = 0;
        while i < n
            invariant
                i <= n,
                start + n <= PAGE_SIZE,
                n == data@.len(),
                buf@.len() == PAGE_SIZE,
                old_buf.len() == PAGE_SIZE,
                forall|k: int| 0 <= k < start ==> #[trigger] buf@[k] == old_buf[k],
                forall|k: int| start <= k < start + i ==> #[trigger] buf@[k] == data@[k - start],
                forall|k: int| start + i <= k < PAGE_SIZE ==> #[trigger] buf@[k] == old_buf[k],
            decreases n - i,
        {
            buf[start + i] = data[i];
            i = i + 1;
        }
        assert(buf@ =~= old_buf.subrange(0, start as int) + data@ + old_buf.subrange(
            start + n,
            PAGE_SIZE as int,
        ));
        self.buf = buf;
        self.filled = start + n;
        Ok(self.filled == PAGE_SIZE)
    }
}

/// Why the stream could not produce an entry.
#[derive(Debug)]
pub enum HashTreeStreamError {
    /// Reading a page failed.
    Io(PageStreamError),
    /// A page's digest does not match its level-1 hash.
    HashMismatch { page_index: usize, expected: HashEntry, got: HashEntry },
}

/// What the stream can do without reading.
#[derive(Clone, Copy, Debug)]
pub enum HashStep {
    /// Every entry has been produced.
    End,
    /// The next entry, from the page already checked.
    Entry(HashEntry),
    /// The next page must be read and handed to [`HashTreeStream::fill`].
    NeedPage,
}

/// A stream over level-0 hash entries, read page by page from a reader and checked
/// against the level-1 hashes.
pub struct HashTreeStream {
    reader: PageStream,
    remaining_hashes: usize,
    next_entry_in_page: usize,
    level_1_hashes: Vec<HashEntry>,
    current_page: usize,
    /// The number of level-0 entries the stream produces in all.
    level_0_hashes: Ghost<nat>,
    /// Whether the page held, once full, is one that passed the check against its level-1
    /// hash.
    verified: Ghost<bool>,
    /// The index of the level-1 hash that the checked page matched.
    verified_index: Ghost<nat>,
    /// Whether a page has failed its check.
    failed: Ghost<bool>,
}

impl HashTreeStream {
    #[verifier::type_invariant]
    closed spec fn stream_invariant(self) -> bool {
        let served = self.level_0_hashes@ - self.remaining_hashes;
        &&& self.remaining_hashes <= self.level_0_hashes@
        &&& self.level_1_hashes@.len() == pages_for(self.level_0_hashes@ as int)
        &&& self.next_entry_in_page <= HASH_ENTRIES_IN_PAGE
        &&& self.current_page >= 1 ==> served >= (self.current_page - 1) * HASH_ENTRIES_IN_PAGE
            + self.next_entry_in_page
        &&& !self.reader.spec_full() ==> (self.next_entry_in_page == HASH_ENTRIES_IN_PAGE || (
        self.current_page == 0 && self.next_entry_in_page == 0))
        &&& self.current_page <= self.level_1_hashes@.len()
        &&& self.verified@ && self.reader.spec_full() ==> {
            &&& self.verified_index@ < self.level_1_hashes@.len()
            &&& sha256(self.reader.bytes()).subrange(0, HASH_ENTRY_LENGTH as int)
                == self.level_1_hashes@[self.verified_index@ as int]@
        }
        &&& self.reader.spec_full() && self.next_entry_in_page < HASH_ENTRIES_IN_PAGE
            ==> self.verified@ || self.failed@
    }

    /// Whether the page held, once full, is one that passed the check against its level-1
    /// hash.
    pub closed spec fn page_verified(self) -> bool {
        self.verified@
    }

    /// The index of the level-1 hash that the checked page matched.
    pub closed spec fn verified_index(self) -> nat {
        self.verified_index@
    }

    /// Whether a page has failed its check since the stream was created.
    pub closed spec fn failed(self) -> bool {
        self.failed@
    }

    /// How many entries are left to produce.
    pub closed spec fn remaining(self) -> nat {
        self.remaining_hashes as nat
    }

    /// The index in the current page of the next entry.
    pub closed spec fn next_entry(self) -> nat {
        self.next_entry_in_page as nat
    }

    /// The index of the next page to check.
    pub closed spec fn page_index(self) -> nat {
        self.current_page as nat
    }

    /// The level-1 hashes, one per page.
    pub closed spec fn expected_hashes(self) -> Seq<HashEntry> {
        self.level_1_hashes@
    }

    /// The page reader.
    pub closed spec fn pages(self) -> PageStream {
        self.reader
    }

    /// Creates the stream of `level_0_hashes` entries, with one level-1 hash per page of
    /// entries.
    pub fn new(level_1_hashes: Vec<HashEntry>, level_0_hashes: usize) -> (s: Self)
        requires
            pages_for(level_0_hashes as int) == level_1_hashes@.len(),
        ensures
            s.remaining() == level_0_hashes,
            s.next_entry() == 0,
            s.page_index() == 0,
            s.expected_hashes() == level_1_hashes@,
            s.pages().filled_len() == 0,
            s.pages().wf(),
            !s.page_verified(),
            !s.failed(),
    {
        Self {
            reader: PageStream::new(),
            remaining_hashes: level_0_hashes,
            next_entry_in_page: 0,
            level_1_hashes,
            current_page: 0,
            level_0_hashes: Ghost(level_0_hashes as nat),
            verified: Ghost(false),
            verified_index: Ghost(0),
            failed: Ghost(false),
        }
    }

    /// Produces the next entry when it needs no read: `End` when none is left, the next
    /// entry of the checked page while it has one, and otherwise `NeedPage` (dropping a
    /// full page, so that the next one can be filled).
    pub fn next_buffered(&mut self) -> (r: HashStep)
        ensures
            (r is Entry) ==> old(self).page_verified() || old(self).failed(),
            (r is Entry) && old(self).page_verified() ==> {
                &&& old(self).verified_index() < old(self).expected_hashes().len()
                &&& sha256(old(self).pages().bytes()).subrange(0, HASH_ENTRY_LENGTH as int)
                    == old(self).expected_hashes()[old(self).verified_index() as int]@
            },
            final(self).verified_index() == old(self).verified_index(),
            final(self).failed() == old(self).failed(),
            (r is Entry || r is End) ==> final(self).page_verified() == old(
                self,
            ).page_verified(),
            (r is NeedPage) ==> !final(self).page_verified(),
            final(self).pages().wf(),
            old(self).remaining() == 0 ==> r is End && *final(self) == *old(self),
            old(self).remaining() > 0 && old(self).pages().spec_full() && old(self).next_entry()
                < HASH_ENTRIES_IN_PAGE ==> {
                &&& (r matches HashStep::Entry(e) && e@ == entry_at(
                    old(self).pages().bytes(),
                    old(self).next_entry() as int,
                ))
                &&& final(self).remaining() == old(self).remaining() - 1
                &&& final(self).next_entry() == old(self).next_entry() + 1
                &&& final(self).page_index() == old(self).page_index()
                &&& final(self).pages() == old(self).pages()
                &&& final(self).expected_hashes() == old(self).expected_hashes()
            },
            old(self).remaining() > 0 && !(old(self).pages().spec_full() && old(self).next_entry()
                < HASH_ENTRIES_IN_PAGE) ==> {
                &&& r is NeedPage
                &&& !final(self).pages().spec_full()
                &&& (old(self).pages().spec_full() ==> final(self).pages().filled_len() == 0)
                &&& (!old(self).pages().spec_full() ==> final(self).pages().filled_len() == old(
                    self,
                ).pages().filled_len())
                &&& final(self).pages().bytes() == old(self).pages().bytes()
                &&& final(self).remaining() == old(self).remaining()
                &&& final(self).next_entry() == old(self).next_entry()
                &&& final(self).page_index() == old(self).page_index()
                &&& final(self).expected_hashes() == old(self).expected_hashes()
            },
    {
        proof {
            use_type_invariant(&*self);
            use_type_invariant(&self.reader);
        }
        if self.remaining_hashes == 0 {
            return HashStep::End;
        }
        if self.reader.is_full() && self.next_entry_in_page < HASH_ENTRIES_IN_PAGE {
            let i = self.next_entry_in_page;
            let mut entry = [0u8; HASH_ENTRY_LENGTH];
            let mut k: usize = 0;
            while k < HASH_ENTRY_LENGTH
                invariant
                    k <= HASH_ENTRY_LENGTH,
                    i < HASH_ENTRIES_IN_PAGE,
                    entry@.len() == HASH_ENTRY_LENGTH,
                    self.reader.buf@.len() == PAGE_SIZE,
                    forall|j: int| 0 <= j < k ==> entry@[j] == self.reader.buf@[HASH_ENTRY_LENGTH
                        * i + j],
                decreases HASH_ENTRY_LENGTH - k,
            {
                entry[k] = self.reader.buf[HASH_ENTRY_LENGTH * i + k];
                k = k + 1;
            }
            assert(entry@ =~= entry_at(self.reader.buf@, i as int));
            self.remaining_hashes = self.remaining_hashes - 1;
            self.next_entry_in_page = i + 1;
            return HashStep::Entry(entry);
        }
        self.verified = Ghost(false);
        let mut reader = PageStream::new();
        std::mem::swap(&mut reader, &mut self.reader);
        reader.begin_page();
        self.reader = reader;
        HashStep::NeedPage
    }

    /// How many bytes the page being filled still lacks.
    pub fn unfilled_len(&self) -> (n: usize)
        ensures
            n == PAGE_SIZE - self.pages().filled_len(),
    {
        self.reader.unfilled_len()
    }

    /// Appends `data`, the bytes one read of the reader produced, to the page being filled.
    /// While the page is not full, returns `Ok(None)`. Once it is full, checks that its
    /// SHA-256 digest starts with the level-1 hash of the current page: if so, produces the
    /// page's first entry and moves on to the next page; if not, reports the mismatch.
    pub fn fill(&mut self, data: &[u8]) -> (r: Result<Option<HashEntry>, HashTreeStreamError>)
        requires
            !old(self).pages().spec_full(),
            old(self).remaining() > 0,
            data@.len() <= PAGE_SIZE - old(self).pages().filled_len(),
        ensures
            data@.len() == 0 ==> (r matches Err(HashTreeStreamError::Io(
                PageStreamError::UnexpectedEof,
            ))) && *final(self) == *old(self),
            final(self).expected_hashes() == old(self).expected_hashes(),
            final(self).pages().wf(),
            old(self).failed() ==> final(self).failed(),
            (r matches Ok(None)) ==> !final(self).page_verified() && final(self).failed() == old(
                self,
            ).failed(),
            (r matches Ok(Some(_))) ==> final(self).page_verified() && final(self).failed() == old(
                self,
            ).failed() && final(self).verified_index() == old(self).page_index(),
            (r matches Err(HashTreeStreamError::HashMismatch { .. })) ==> final(self).failed()
                && !final(self).page_verified(),
            data@.len() > 0 ==> {
                &&& final(self).pages().filled_len() == old(self).pages().filled_len()
                    + data@.len()
                &&& final(self).pages().bytes() == old(self).pages().bytes().subrange(
                    0,
                    old(self).pages().filled_len() as int,
                ) + data@ + old(self).pages().bytes().subrange(
                    (old(self).pages().filled_len() + data@.len()) as int,
                    PAGE_SIZE as int,
                )
            },
            data@.len() > 0 && !final(self).pages().spec_full() ==> {
                &&& (r matches Ok(None))
                &&& final(self).remaining() == old(self).remaining()
                &&& final(self).next_entry() == old(self).next_entry()
                &&& final(self).page_index() == old(self).page_index()
            },
            data@.len() > 0 && final(self).pages().spec_full() ==> {
                let page = final(self).pages().bytes();
                let expected = old(self).expected_hashes()[old(self).page_index() as int];
                let got = sha256(page).subrange(0, HASH_ENTRY_LENGTH as int);
                &&& old(self).page_index() < old(self).expected_hashes().len()
                &&& got == expected@ ==> {
                    &&& (r matches Ok(Some(e)) && e@ == entry_at(page, 0))
                    &&& final(self).remaining() == old(self).remaining() - 1
                    &&& final(self).next_entry() == 1
                    &&& final(self).page_index() == old(self).page_index() + 1
                }
                &&& got != expected@ ==> {
                    &&& (r matches Err(
                        HashTreeStreamError::HashMismatch { page_index, expected: e, got: g },
                    ) && page_index == old(self).page_index() && e == expected && g@ == got)
                    &&& final(self).remaining() == old(self).remaining()
                    &&& final(self).next_entry() == old(self).next_entry()
                    &&& final(self).page_index() == old(self).page_index()
                }
            },
    {
        proof {
            use_type_invariant(&*self);
        }
        let mut reader = PageStream::new();
        std::mem::swap(&mut reader, &mut self.reader);
        let filled = reader.fill(data);
        match filled {
            Err(e) => {
                self.reader = reader;
                Err(HashTreeStreamError::Io(e))
            },
            Ok(false) => {
                self.verified = Ghost(false);
                self.reader = reader;
                Ok(None)
            },
            Ok(true) => {
                let page = match reader.buffer() {
                    Some(p) => p,
                    None => {
                        self.verified = Ghost(false);
                        self.reader = reader;
                        return Ok(None);
                    },
                };
                let digest = sha256_digest(page);
                assert(self.current_page < self.level_1_hashes@.len()) by {
                    assert(pages_for(self.level_0_hashes@ as int) * 170 >= self.level_0_hashes@);
                }
                let n_pages = self.level_1_hashes.len();
                let expected: HashEntry = self.level_1_hashes[self.current_page];
                let mut got = [0u8; HASH_ENTRY_LENGTH];
                let mut first = [0u8; HASH_ENTRY_LENGTH];
                let mut k: usize = 0;
                while k < HASH_ENTRY_LENGTH
                    invariant
                        k <= HASH_ENTRY_LENGTH,
                        got@.len() == HASH_ENTRY_LENGTH,
                        first@.len() == HASH_ENTRY_LENGTH,
                        digest@.len() == 32,
                        page@.len() == PAGE_SIZE,
                        forall|j: int| 0 <= j < k ==> got@[j] == digest@[j],
                        forall|j: int| 0 <= j < k ==> first@[j] == page@[j],
                    decreases HASH_ENTRY_LENGTH - k,
                {
                    got[k] = digest[k];
                    first[k] = page[k];
                    k = k + 1;
                }
                assert(got@ =~= sha256(page@).subrange(0, HASH_ENTRY_LENGTH as int));
                assert(first@ =~= entry_at(page@, 0));
                let mut equal = true;
                let mut k: usize = 0;
                while k < HASH_ENTRY_LENGTH
                    invariant
                        k <= HASH_ENTRY_LENGTH,
                        got@.len() == HASH_ENTRY_LENGTH,
                        expected@.len() == HASH_ENTRY_LENGTH,
                        equal <==> forall|j: int| 0 <= j < k ==> got@[j] == expected@[j],
                    decreases HASH_ENTRY_LENGTH - k,
                {
                    if got[k] != expected[k] {
                        equal = false;
                    }
                    k = k + 1;
                }
                if !equal {
                    self.failed = Ghost(true);
                    self.verified = Ghost(false);
                    self.reader = reader;
                    assert(got@ != expected@) by {
                        let j = choose|j: int| 0 <= j < HASH_ENTRY_LENGTH && got@[j] != expected@[j];
                        assert(got@[j] != expected@[j]);
                    }
                    return Err(
                        HashTreeStreamError::HashMismatch {
                            page_index: self.current_page,
                            expected,
                            got,
                        },
                    );
                }
                assert(got@ =~= expected@);
                self.verified_index = Ghost(self.current_page as nat);
                self.verified = Ghost(true);
                self.reader = reader;
                self.next_entry_in_page = 1;
                self.remaining_hashes = self.remaining_hashes - 1;
                self.current_page = self.current_page + 1;
                Ok(Some(first))
            },
        }
    }
}

} // verus!
