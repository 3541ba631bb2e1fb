use msixvc::ekb::EKB;
use msixvc::tlv::{TlvError, TLV};

fn encode(tag: u16, value: &[u8]) -> Vec<u8> {
    let mut out = tag.to_le_bytes().to_vec();
    out.extend_from_slice(&(value.len() as u32).to_le_bytes());
    out.extend_from_slice(value);
    out
}

#[test]
fn tlv_from_reader_reads_one_record() {
    let mut data = encode(0x0102, &[9, 8, 7]);
    data.extend_from_slice(&[1, 2, 3]);
    let (tlv, n) = TLV::from_reader(&data).unwrap();
    assert_eq!(tlv.tag, 0x0102);
    assert_eq!(tlv.value, vec![9, 8, 7]);
    assert_eq!(n, 9);
}

#[test]
fn tlv_from_reader_refuses_short_input() {
    assert_eq!(TLV::from_reader(&[1, 0, 3]).unwrap_err(), TlvError::UnexpectedEof);
    assert_eq!(
        TLV::from_reader(&[1, 0, 4, 0, 0, 0, 1, 2, 3]).unwrap_err(),
        TlvError::UnexpectedEof
    );
}

#[test]
fn tlv_decode_all_round_trips() {
    let mut data = encode(1, b"abc");
    data.extend(encode(2, b""));
    data.extend(encode(0xffff, &[0u8; 300]));
    let tlvs = TLV::decode_all(&data).unwrap();
    assert_eq!(tlvs.len(), 3);
    assert_eq!((tlvs[0].tag, tlvs[0].value.as_slice()), (1, &b"abc"[..]));
    assert_eq!((tlvs[1].tag, tlvs[1].value.len()), (2, 0));
    assert_eq!((tlvs[2].tag, tlvs[2].value.len()), (0xffff, 300));
    let mut again = Vec::new();
    for t in &tlvs {
        again.extend(encode(t.tag, &t.value));
    }
    assert_eq!(again, data);
}

#[test]
fn tlv_decode_all_of_nothing_is_empty() {
    assert!(TLV::decode_all(&[]).unwrap().is_empty());
}

#[test]
fn tlv_decode_all_refuses_cut_record() {
    let mut data = encode(1, b"abc");
    data.extend_from_slice(&[5, 0, 10, 0, 0, 0, 1]);
    assert_eq!(TLV::decode_all(&data).unwrap_err(), TlvError::UnexpectedEof);
}

#[test]
fn ekb_from_reader_decodes_records() {
    let body = [encode(7, b"key"), encode(8, &[1, 2])].concat();
    let mut data = b"EKB1".to_vec();
    data.extend_from_slice(&(body.len() as u32).to_le_bytes());
    data.extend_from_slice(&body);
    data.extend_from_slice(&[0xee; 5]);
    let ekb = EKB::from_reader(&data).unwrap();
    assert_eq!(ekb.tlvs.len(), 2);
    assert_eq!(ekb.tlvs[0].tag, 7);
    assert_eq!(ekb.tlvs[1].value, vec![1, 2]);
}

#[test]
fn ekb_from_reader_refuses_short_input() {
    assert_eq!(EKB::from_reader(b"EK").unwrap_err(), TlvError::UnexpectedEof);
    assert_eq!(EKB::from_reader(b"EKB1\x05\x00\x00\x00ab").unwrap_err(), TlvError::UnexpectedEof);
    assert_eq!(
        EKB::from_reader(b"EKB1\x03\x00\x00\x00abc").unwrap_err(),
        TlvError::UnexpectedEof
    );
}
