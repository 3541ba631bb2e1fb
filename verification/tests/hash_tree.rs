use msixvc::hash_tree::{HashStep, HashTreeStream, HashTreeStreamError, PageStream, PageStreamError};
use msixvc::layout::{HASH_ENTRIES_IN_PAGE, HASH_ENTRY_LENGTH, PAGE_SIZE};
use sha2::Digest;

#[test]
fn test_page_stream() {
    // Fill a buffer with test data.
    let test_data: Vec<u8> = (0..PAGE_SIZE * 3 + 84)
        .map(|i| {
            // Make sure that the first `u8::MAX` pages are all different.
            let page = i / PAGE_SIZE;
            (page as u8).wrapping_add(i as u8)
        })
        .collect();

    // Feed the test data to a `PageStream` as an in-memory reader would.
    let mut page_stream = PageStream::new();
    let mut pos = 0;

    // For each full page in `test_data`, check that `PageStream` returns exactly the
    // same data.
    for chunk in test_data.chunks_exact(PAGE_SIZE) {
        page_stream.begin_page();
        loop {
            let n = page_stream.unfilled_len().min(test_data.len() - pos);
            match page_stream.fill(&test_data[pos..pos + n]) {
                Ok(full) => {
                    pos += n;
                    if full {
                        break;
                    }
                }
                Err(_) => unreachable!("An in-memory Cursor mustn't block nor fail"),
            }
        }
        assert_eq!(&page_stream.buffer().unwrap()[..], chunk);
    }

    // After we've consumed every full page, the stream must report an unexpected end.
    page_stream.begin_page();
    let n = page_stream.unfilled_len().min(test_data.len() - pos);
    assert_eq!(n, 84);
    assert_eq!(page_stream.fill(&test_data[pos..pos + n]), Ok(false));
    assert!(page_stream.buffer().is_none());
    match page_stream.fill(&[]) {
        Err(e) => assert_eq!(e, PageStreamError::UnexpectedEof),
        _ => unreachable!("After consuming all the pages, it must return an error"),
    }
}

fn entry(i: usize) -> [u8; HASH_ENTRY_LENGTH] {
    let mut e = [0u8; HASH_ENTRY_LENGTH];
    for (k, b) in e.iter_mut().enumerate() {
        *b = (i * 7 + k) as u8;
    }
    e
}

fn page_of(entries: std::ops::Range<usize>) -> Vec<u8> {
    let mut p = vec![0u8; PAGE_SIZE];
    for (slot, i) in entries.enumerate() {
        p[slot * HASH_ENTRY_LENGTH..(slot + 1) * HASH_ENTRY_LENGTH].copy_from_slice(&entry(i));
    }
    p
}

fn level1(page: &[u8]) -> [u8; HASH_ENTRY_LENGTH] {
    sha2::Sha256::digest(page)[..HASH_ENTRY_LENGTH].try_into().unwrap()
}

fn next(stream: &mut HashTreeStream, pages: &mut Vec<Vec<u8>>) -> Option<Result<[u8; HASH_ENTRY_LENGTH], HashTreeStreamError>> {
    match stream.next_buffered() {
        HashStep::End => None,
        HashStep::Entry(e) => Some(Ok(e)),
        HashStep::NeedPage => {
            let page = pages.remove(0);
            // Hand the page over in two reads.
            let half = stream.unfilled_len() / 2;
            assert!(matches!(stream.fill(&page[..half]), Ok(None)));
            match stream.fill(&page[half..]) {
                Ok(Some(e)) => Some(Ok(e)),
                Ok(None) => panic!("a full page produced nothing"),
                Err(e) => Some(Err(e)),
            }
        }
    }
}

#[test]
fn hash_tree_stream_yields_checked_entries() {
    let n = HASH_ENTRIES_IN_PAGE + 3;
    let p0 = page_of(0..HASH_ENTRIES_IN_PAGE);
    let p1 = page_of(HASH_ENTRIES_IN_PAGE..n);
    let mut stream = HashTreeStream::new(vec![level1(&p0), level1(&p1)], n);
    let mut pages = vec![p0, p1];
    for i in 0..n {
        assert_eq!(next(&mut stream, &mut pages).unwrap().unwrap(), entry(i));
    }
    assert!(next(&mut stream, &mut pages).is_none());
}

#[test]
fn hash_tree_stream_reports_mismatch() {
    let p0 = page_of(0..5);
    let wrong = [0xaa; HASH_ENTRY_LENGTH];
    let mut stream = HashTreeStream::new(vec![wrong], 5);
    let mut pages = vec![p0.clone()];
    match next(&mut stream, &mut pages) {
        Some(Err(HashTreeStreamError::HashMismatch { page_index, expected, got })) => {
            assert_eq!(page_index, 0);
            assert_eq!(expected, wrong);
            assert_eq!(got, level1(&p0));
        }
        _ => panic!("a wrong level-1 hash went unnoticed"),
    }
}

#[test]
fn hash_tree_stream_reports_eof() {
    let mut stream = HashTreeStream::new(vec![[0; HASH_ENTRY_LENGTH]], 1);
    assert!(matches!(stream.next_buffered(), HashStep::NeedPage));
    assert!(matches!(
        stream.fill(&[]),
        Err(HashTreeStreamError::Io(PageStreamError::UnexpectedEof))
    ));
}
