use msixvc::parse::byteorder::{big_endian, little_endian, Be, Le};
use msixvc::parse::reader::filetime_to_unix_nanos;
use msixvc::parse::{parse, try_parse, BinaryParse, BinaryTryParse, BytesReader};

#[test]
fn le_and_be_integers_parse_from_arrays() {
    assert_eq!(Le::<u16>::from_array(&[0x34, 0x12]), 0x1234);
    assert_eq!(Be::<u16>::from_array(&[0x12, 0x34]), 0x1234);
    assert_eq!(Le::<i16>::from_array(&[0xfe, 0xff]), -2);
    assert_eq!(Be::<i32>::from_array(&[0xff, 0xff, 0xff, 0xfd]), -3);
    assert_eq!(little_endian::U32::from_array(&[1, 2, 3, 4]), 0x04030201);
    assert_eq!(big_endian::U64::from_array(&[0, 0, 0, 0, 0, 0, 1, 2]), 0x0102);
    assert_eq!(
        Le::<u128>::from_array(&[0xff; 16]),
        u128::MAX
    );
    assert_eq!(Be::<i128>::from_array(&[0x80, 0, 0, 0, 0, 0, 0, 0, 0, 0, 0, 0, 0, 0, 0, 0]), i128::MIN);
    assert_eq!(Le::<i64>::size(), 8);
}

#[test]
fn try_from_array_never_fails_for_integers() {
    assert_eq!(Le::<u32>::try_from_array(&[1, 0, 0, 0]), Ok(1));
}

#[test]
fn parse_runs_the_parser_over_all_bytes() {
    let bytes = [1u8, 0, 2, 0, 0, 0];
    let (a, b) = parse(&bytes, |r: BytesReader| {
        let (a, r) = r.u16_le();
        let (b, r) = r.u32_le();
        ((a, b), r)
    });
    assert_eq!((a, b), (1, 2));
}

#[test]
fn try_parse_returns_the_parsers_error() {
    let bytes = [b'X', b'V', 7];
    let ok: Result<u8, Vec<u8>> = try_parse(&bytes, |r: BytesReader| match r.magic(b"XV") {
        Ok(r) => {
            let (v, r) = r.u8_le();
            Ok((v, r))
        }
        Err(m) => Err(m.to_vec()),
    });
    assert_eq!(ok, Ok(7));
    let bad = [b'X', b'Y', 7];
    let err: Result<u8, Vec<u8>> = try_parse(&bad, |r: BytesReader| match r.magic(b"XV") {
        Ok(r) => {
            let (v, r) = r.u8_le();
            Ok((v, r))
        }
        Err(m) => Err(m.to_vec()),
    });
    assert_eq!(err, Err(b"XY".to_vec()));
}

#[test]
fn reader_reads_fields_in_order() {
    let bytes = [0xff, 0xfe, 0xff, 0x01, 0x02, 0x03, 0x04, 0x05];
    let r = BytesReader::new(&bytes);
    let (a, r) = r.i8_le();
    let (b, r) = r.i16_le();
    let (c, r) = r.u8_le();
    let (d, r) = r.u32_le();
    assert_eq!((a, b, c, d), (-1, -2, 1, 0x05040302));
    assert_eq!(r.len(), 0);
}

#[test]
fn reader_array_splits_bytes() {
    let bytes = [1, 2, 3, 4, 5];
    let (head, rest) = BytesReader::new(&bytes).array(2);
    assert_eq!(head, vec![1, 2]);
    let (head2, rest) = rest.array_ref(3);
    assert_eq!(head2, &[3, 4, 5]);
    assert_eq!(rest.len(), 0);
}

#[test]
fn reader_uuid_reverses_the_first_three_fields() {
    let bytes = [
        0xa1, 0xa2, 0xa3, 0xa4, 0xb1, 0xb2, 0xc1, 0xc2, 0xd1, 0xd2, 0xd3, 0xd4, 0xd5, 0xd6, 0xd7,
        0xd8,
    ];
    let (u, rest) = BytesReader::new(&bytes).uuid();
    assert_eq!(
        u,
        [0xa4, 0xa3, 0xa2, 0xa1, 0xb2, 0xb1, 0xc2, 0xc1, 0xd1, 0xd2, 0xd3, 0xd4, 0xd5, 0xd6, 0xd7, 0xd8]
    );
    assert_eq!(
        uuid::Uuid::from_bytes(u).to_string(),
        "a4a3a2a1-b2b1-c2c1-d1d2-d3d4d5d6d7d8"
    );
    assert_eq!(rest.len(), 0);
}

#[test]
fn reader_magic_checks_prefix() {
    let bytes = *b"EKB1rest";
    let r = BytesReader::new(&bytes);
    let rest = r.magic(b"EKB1").ok().unwrap();
    assert_eq!(rest.len(), 4);
    let r = BytesReader::new(&bytes);
    assert_eq!(r.magic(b"XVD1").err().unwrap(), b"EKB1");
}

#[test]
fn filetime_converts_to_unix_nanoseconds() {
    assert_eq!(filetime_to_unix_nanos(116_444_736_000_000_000), 0);
    assert_eq!(filetime_to_unix_nanos(116_444_736_000_000_001), 100);
    let bytes = 116_444_736_000_000_010i64.to_le_bytes();
    let (n, _) = BytesReader::new(&bytes).filetime();
    assert_eq!(n, 1000);
}
