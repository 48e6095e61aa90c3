use moomoo_adaptor::frame::{build_frame, build_frame_with_digest, parse_header, HEADER_LEN};
use moomoo_adaptor::model::proto_ids::{INIT_CONNECT, QOT_UPDATE_TICKER};

fn hex(s: &str) -> Vec<u8> {
    (0..s.len())
        .step_by(2)
        .map(|i| u8::from_str_radix(&s[i..i + 2], 16).unwrap())
        .collect()
}

#[test]
fn build_frame_lays_out_header_then_body() {
    let frame = build_frame(INIT_CONNECT, 7, b"abc");
    assert_eq!(frame.len(), HEADER_LEN + 3);
    assert_eq!(&frame[0..2], b"FT");
    assert_eq!(&frame[2..6], &[0xE9, 0x03, 0x00, 0x00]);
    assert_eq!(frame[6], 0);
    assert_eq!(frame[7], 0);
    assert_eq!(&frame[8..12], &[7, 0, 0, 0]);
    assert_eq!(&frame[12..16], &[3, 0, 0, 0]);
    assert_eq!(&frame[16..36], hex("a9993e364706816aba3e25717850c26c9cd0d89d").as_slice());
    assert_eq!(&frame[36..44], &[0u8; 8]);
    assert_eq!(&frame[44..], b"abc");
}

#[test]
fn build_frame_with_empty_body_carries_digest_of_nothing() {
    let frame = build_frame(1004, 1, &[]);
    assert_eq!(frame.len(), HEADER_LEN);
    assert_eq!(&frame[12..16], &[0, 0, 0, 0]);
    assert_eq!(&frame[16..36], hex("da39a3ee5e6b4b0d3255bfef95601890afd80709").as_slice());
}

#[test]
fn parse_header_reads_back_a_built_frame() {
    let body = [1u8, 2, 3, 4, 5];
    let frame = build_frame(QOT_UPDATE_TICKER, 0xdead_beef, &body);
    let header: [u8; 44] = frame[0..44].try_into().unwrap();
    let h = parse_header(&header).unwrap();
    assert_eq!(h.proto_id, QOT_UPDATE_TICKER);
    assert_eq!(h.proto_fmt_type, 0);
    assert_eq!(h.proto_ver, 0);
    assert_eq!(h.serial_no, 0xdead_beef);
    assert_eq!(h.body_len, 5);
    assert_eq!(&frame[44..], &body);
}

#[test]
fn parse_header_reads_fields_little_endian() {
    let mut header = [0u8; 44];
    header[0] = b'F';
    header[1] = b'T';
    header[2..6].copy_from_slice(&[0x01, 0x02, 0x03, 0x04]);
    header[6] = 9;
    header[7] = 8;
    header[8..12].copy_from_slice(&[0xff, 0, 0, 0x80]);
    header[12..16].copy_from_slice(&[0x10, 0x27, 0, 0]);
    header[16] = 0xaa;
    header[40] = 0xbb;
    let h = parse_header(&header).unwrap();
    assert_eq!(h.proto_id, 0x0403_0201);
    assert_eq!(h.proto_fmt_type, 9);
    assert_eq!(h.proto_ver, 8);
    assert_eq!(h.serial_no, 0x8000_00ff);
    assert_eq!(h.body_len, 10_000);
}

#[test]
fn parse_header_rejects_a_wrong_flag() {
    let mut header = [0u8; 44];
    header[0] = b'F';
    header[1] = b'X';
    assert_eq!(parse_header(&header).err(), Some("invalid header flag"));
    header[0] = b'T';
    header[1] = b'F';
    assert_eq!(parse_header(&header).err(), Some("invalid header flag"));
}

#[test]
fn frame_with_given_digest_carries_it() {
    let digest = [0x5au8; 20];
    let frame = build_frame_with_digest(3001, 2, b"xy", &digest);
    assert_eq!(frame.len(), HEADER_LEN + 2);
    assert_eq!(&frame[0..16], &[b'F', b'T', 0xB9, 0x0B, 0, 0, 0, 0, 2, 0, 0, 0, 2, 0, 0, 0]);
    assert_eq!(&frame[16..36], &digest);
    assert_eq!(&frame[36..44], &[0u8; 8]);
    assert_eq!(&frame[44..], b"xy");
}

#[test]
fn frame_of_empty_body_equals_frame_with_its_digest() {
    let digest: [u8; 20] = hex("da39a3ee5e6b4b0d3255bfef95601890afd80709").try_into().unwrap();
    assert_eq!(build_frame(1004, 9, &[]), build_frame_with_digest(1004, 9, &[], &digest));
}
