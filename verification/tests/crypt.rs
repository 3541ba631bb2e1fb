use msixvc::crypt::decryptor_reader::{DecryptorReader, NewDecryptorReaderError};
use msixvc::crypt::region::{NewRegionError, Region, RegionDecryptor};
use msixvc::crypt::region_reader::RegionReader;
use msixvc::crypt::section_reader::{PageFetch, ReadStep, SectionRead, SectionReadError, SectionReader};
use msixvc::crypt::seek::{SeekError, SeekTarget};
use msixvc::crypt::xts::{decrypt_page_xts, encrypt_page_xts, TweakGenerator};
use msixvc::layout::PAGE_SIZE;

fn hex(s: &str) -> Vec<u8> {
    (0..s.len()).step_by(2).map(|i| u8::from_str_radix(&s[i..i + 2], 16).unwrap()).collect()
}

fn sample_page(seed: u8) -> [u8; PAGE_SIZE] {
    let mut p = [0u8; PAGE_SIZE];
    for (i, b) in p.iter_mut().enumerate() {
        *b = (i as u8).wrapping_mul(31).wrapping_add(seed);
    }
    p
}

#[test]
fn tweak_holds_data_unit_region_and_vduid_prefix() {
    let vduid: [u8; 16] = [
        0x10, 0x11, 0x12, 0x13, 0x14, 0x15, 0x16, 0x17, 0x18, 0x19, 0x1a, 0x1b, 0x1c, 0x1d, 0x1e,
        0x1f,
    ];
    let t = TweakGenerator::new(0x0403_0201, vduid).with_data_unit(0xaabb_ccdd);
    assert_eq!(
        t.bytes(),
        [
            0xdd, 0xcc, 0xbb, 0xaa, 0x01, 0x02, 0x03, 0x04, 0x13, 0x12, 0x11, 0x10, 0x15, 0x14,
            0x17, 0x16
        ]
    );
}

#[test]
fn xts_matches_ieee_1619_vector_1() {
    // Both keys zero, data unit 0, 32 zero bytes of plaintext.
    let tweak = TweakGenerator::new(0, [0; 16]).with_data_unit(0);
    let mut page = [0u8; PAGE_SIZE];
    encrypt_page_xts(&mut page, tweak, &[0; 16], &[0; 16]);
    assert_eq!(
        page[..32].to_vec(),
        hex("917cf69ebd68b2ec9b9fe9a3eadda692cd43d2f59598ed858c02c2652fbf922e")
    );
    decrypt_page_xts(&mut page, tweak, &[0; 16], &[0; 16]);
    assert_eq!(page, [0u8; PAGE_SIZE]);
}

#[test]
fn xts_matches_ieee_1619_vector_2() {
    // Data key 0x11.., tweak key 0x22.., data unit 0x3333333333, plaintext 0x44...
    let tweak = TweakGenerator::new(0x33, [0; 16]).with_data_unit(0x3333_3333);
    let mut page = [0x44u8; PAGE_SIZE];
    encrypt_page_xts(&mut page, tweak, &[0x22; 16], &[0x11; 16]);
    assert_eq!(
        page[..32].to_vec(),
        hex("c454185e6a16936e39334038acef838bfb186fff7480adc4289382ecd6d394f0")
    );
    let mut key = [0x22u8; 32];
    key[16..].copy_from_slice(&[0x11; 16]);
    let dec = RegionDecryptor::new(0x33, [0; 16], key, vec![]);
    dec.decrypt_at(0x3333_3333, &mut page);
    assert_eq!(page, [0x44u8; PAGE_SIZE]);
}

#[test]
fn xts_decrypt_then_encrypt_round_trips() {
    let original = sample_page(7);
    let tweak = TweakGenerator::new(5, [9; 16]).with_data_unit(77);
    let mut page = original;
    decrypt_page_xts(&mut page, tweak, &[1; 16], &[2; 16]);
    assert_ne!(page, original);
    encrypt_page_xts(&mut page, tweak, &[1; 16], &[2; 16]);
    assert_eq!(page, original);
}

#[test]
fn region_decryptor_uses_data_units_when_present() {
    let key = [3u8; 32];
    let plain = sample_page(1);
    let mut cipher = plain;
    let tweak = TweakGenerator::new(2, [4; 16]).with_data_unit(500);
    encrypt_page_xts(&mut cipher, tweak, &[3; 16], &[3; 16]);
    let dec = RegionDecryptor::new(2, [4; 16], key, vec![100, 500]);
    let mut page = cipher;
    dec.decrypt_at(1, &mut page);
    assert_eq!(page, plain);
    let mut page = cipher;
    dec.decrypt_at(0, &mut page);
    assert_ne!(page, plain);
}

#[test]
fn region_new_checks_range_and_data_units() {
    assert!(matches!(
        Region::new(5..3, None),
        Err(NewRegionError::InvalidPageRange(r)) if r == (5..3)
    ));
    let dec = RegionDecryptor::new(0, [0; 16], [0; 32], vec![1, 2, 3]);
    assert!(matches!(
        Region::new(0..2, Some(dec)),
        Err(NewRegionError::InvalidDataUnitCount { expected: 2, found: 3 })
    ));
    let dec = RegionDecryptor::new(0, [0; 16], [0; 32], vec![1, 2]);
    let r = Region::new(4..6, Some(dec)).unwrap();
    assert_eq!((r.first_page(), r.end_page()), (4, 6));
    let dec = RegionDecryptor::new(0, [0; 16], [0; 32], vec![]);
    assert!(Region::new(4..9, Some(dec)).is_ok());
    assert!(Region::new(3..3, None).is_ok());
}

#[test]
fn decryptor_reader_refuses_gaps() {
    let regions = vec![Region::new(0..2, None).unwrap(), Region::new(3..4, None).unwrap()];
    match DecryptorReader::new(regions) {
        Err(NewDecryptorReaderError::NonConsecutiveRegions(v)) => assert_eq!(v.len(), 2),
        Ok(_) => panic!("regions with a gap were accepted"),
    }
    let regions = vec![Region::new(1..2, None).unwrap()];
    assert!(DecryptorReader::new(regions).is_err());
}

#[test]
fn decryptor_reader_reads_and_decrypts_pages() {
    let key = [5u8; 32];
    let plain = sample_page(3);
    let mut cipher = plain;
    // Page 1 of the file is page 0 of the encrypted region: its data unit is 0.
    encrypt_page_xts(&mut cipher, TweakGenerator::new(9, [1; 16]).with_data_unit(0), &[5; 16], &[5; 16]);
    let dec = RegionDecryptor::new(9, [1; 16], key, vec![]);
    let regions = vec![Region::new(0..1, None).unwrap(), Region::new(1..2, Some(dec)).unwrap()];
    let mut reader = DecryptorReader::new(regions).unwrap();
    assert_eq!(reader.reader_len(), 2 * PAGE_SIZE as u64);
    assert!(!reader.is_finished());
    reader.load_page(sample_page(9));

    let mut buf = vec![0u8; 10];
    assert_eq!(reader.read(&mut buf), (10, false));
    assert_eq!(buf, sample_page(9)[..10].to_vec());
    assert_eq!(reader.stream_position(), 10);
    assert_eq!(reader.read(&mut []), (0, false));

    let mut big = vec![0u8; 2 * PAGE_SIZE];
    assert_eq!(reader.read(&mut big), (PAGE_SIZE - 10, true));
    assert_eq!(reader.current_page(), 1);
    reader.load_page(cipher);
    let mut buf = vec![0u8; 16];
    assert_eq!(reader.read(&mut buf), (16, false));
    assert_eq!(buf, plain[..16].to_vec());

    let plan = reader.plan_seek(SeekTarget::End(-1)).unwrap();
    assert_eq!(plan.position, 2 * PAGE_SIZE as u64 - 1);
    assert!(!plan.page_changed);
    let plan = reader.plan_seek(SeekTarget::Start(5)).unwrap();
    assert_eq!((plan.page_start, plan.page_changed, plan.inner_seek), (0, true, Some(0)));
    assert_eq!(reader.plan_seek(SeekTarget::End(1)), Err(SeekError::InvalidPosition));
    assert_eq!(reader.plan_seek(SeekTarget::Current(-10_000)), Err(SeekError::InvalidPosition));

    reader.set_offset(2 * PAGE_SIZE as u64);
    assert!(reader.is_finished());
    assert_eq!(reader.read(&mut buf), (0, false));
}

#[test]
fn decryptor_reader_seek_to_next_page_needs_no_inner_seek() {
    let regions = vec![Region::new(0..3, None).unwrap()];
    let reader = DecryptorReader::new(regions).unwrap();
    let plan = reader.plan_seek(SeekTarget::Current(PAGE_SIZE as i64 + 3)).unwrap();
    assert_eq!(plan.position, PAGE_SIZE as u64 + 3);
    assert_eq!(plan.page_start, PAGE_SIZE as u64);
    assert!(plan.page_changed);
    assert_eq!(plan.inner_seek, None);
}

#[test]
fn region_reader_reads_decrypted_region() {
    let key = [6u8; 32];
    let plain = sample_page(4);
    let mut cipher = plain;
    encrypt_page_xts(&mut cipher, TweakGenerator::new(1, [2; 16]).with_data_unit(1), &[6; 16], &[6; 16]);
    let dec = RegionDecryptor::new(1, [2; 16], key, vec![]);
    let mut reader = RegionReader::new(
        (3 * PAGE_SIZE as u64)..(5 * PAGE_SIZE as u64),
        dec,
    );
    assert_eq!(reader.region_len(), 2 * PAGE_SIZE as u64);
    let plan = reader.plan_seek(SeekTarget::Start(PAGE_SIZE as u64 + 2)).unwrap();
    assert_eq!(plan.inner_seek, Some(4 * PAGE_SIZE as u64));
    reader.set_offset(plan.page_start);
    reader.load_page(cipher);
    reader.set_offset(plan.position);
    let mut buf = vec![0u8; 4];
    assert_eq!(reader.read(&mut buf), (4, false));
    assert_eq!(buf, plain[2..6].to_vec());
    let plan = reader.plan_seek(SeekTarget::End(10)).unwrap();
    assert_eq!(plan.position, 2 * PAGE_SIZE as u64 + 10);
    reader.set_offset(plan.position);
    assert!(reader.is_finished());
    assert_eq!(reader.read(&mut buf), (0, false));
}

#[test]
fn section_reader_checks_ranges() {
    let r = SectionReader::new(100, 50, 0, [0; 16], [0; 32], None);
    assert_eq!(r.start_read(u64::MAX, 2), Err(SectionReadError::RangeOverflow));
    assert_eq!(r.start_read(40, 11), Err(SectionReadError::ReadPastEnd));
    assert_eq!(r.start_read(40, 10), Ok(SectionRead { offset: 40, written: 0 }));
}

#[test]
fn section_reader_reads_across_pages() {
    let key = [8u8; 32];
    let plain0 = sample_page(10);
    let plain1 = sample_page(11);
    let mut c0 = plain0;
    let mut c1 = plain1;
    let gen = TweakGenerator::new(7, [3; 16]);
    encrypt_page_xts(&mut c0, gen.with_data_unit(40), &[8; 16], &[8; 16]);
    encrypt_page_xts(&mut c1, gen.with_data_unit(41), &[8; 16], &[8; 16]);
    let mut r = SectionReader::new(
        8 * PAGE_SIZE as u64,
        2 * PAGE_SIZE as u64,
        7,
        [3; 16],
        key,
        Some(vec![40, 41]),
    );
    let mut out = vec![0u8; 8];
    let mut progress = r.start_read(PAGE_SIZE as u64 - 4, out.len()).unwrap();
    let mut fetches = Vec::new();
    loop {
        match r.step(&mut progress, &mut out).unwrap() {
            ReadStep::Done => break,
            ReadStep::Copied(_) => {}
            ReadStep::Fetch(f) => {
                fetches.push(f);
                let raw = if f.page_in_section == 0 { c0 } else { c1 };
                r.install_page(f, raw);
            }
        }
    }
    assert_eq!(
        fetches,
        vec![
            PageFetch { page_in_section: 0, file_offset: 8 * PAGE_SIZE as u64, data_unit: 40 },
            PageFetch { page_in_section: 1, file_offset: 9 * PAGE_SIZE as u64, data_unit: 41 },
        ]
    );
    let mut expected = plain0[PAGE_SIZE - 4..].to_vec();
    expected.extend_from_slice(&plain1[..4]);
    assert_eq!(out, expected);
}

#[test]
fn section_reader_reports_missing_data_unit() {
    let r = SectionReader::new(0, 3 * PAGE_SIZE as u64, 0, [0; 16], [0; 32], Some(vec![1]));
    let mut out = vec![0u8; 1];
    let mut progress = r.start_read(PAGE_SIZE as u64, 1).unwrap();
    assert_eq!(r.step(&mut progress, &mut out), Err(SectionReadError::MissingDataUnit));
    let r = SectionReader::new(u64::MAX - 10, 3 * PAGE_SIZE as u64, 0, [0; 16], [0; 32], None);
    let mut progress = r.start_read(PAGE_SIZE as u64, 1).unwrap();
    assert_eq!(r.step(&mut progress, &mut out), Err(SectionReadError::FileOffsetOverflow));
}

#[test]
fn distinct_data_units_give_distinct_tweaks() {
    let g = TweakGenerator::new(3, [7; 16]);
    assert_ne!(g.with_data_unit(1).bytes(), g.with_data_unit(2).bytes());
    assert_ne!(g.with_data_unit(0).bytes(), g.with_data_unit(0x0100_0000).bytes());
    assert_eq!(g.with_data_unit(5).bytes(), g.with_data_unit(5).bytes());
}
