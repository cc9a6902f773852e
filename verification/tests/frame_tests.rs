use xv_lidar::frame::{
    checksum, incoming_checksum, parse_data_packet, verify_body, BODY_LEN, FRAME_COUNT,
    INDEX_FIRST, INDEX_LAST, SLOT_COUNT, START_MARKER, UNAVAILABLE,
};

const SPEED: [u8; 2] = [0x70, 0x4B];
const DATA0: [u8; 4] = [0x10, 0x00, 0x05, 0x00];
const DATA1: [u8; 4] = [0xFF, 0x3F, 0xFF, 0xFF];
const DATA2: [u8; 4] = [0x34, 0x12, 0x78, 0x56];
const DATA3: [u8; 4] = [0x00, 0x80, 0x01, 0x00];

fn fixture_body(low: u8, high: u8) -> Vec<u8> {
    let mut body: Vec<u8> = Vec::new();
    body.extend_from_slice(&SPEED);
    body.extend_from_slice(&DATA0);
    body.extend_from_slice(&DATA1);
    body.extend_from_slice(&DATA2);
    body.extend_from_slice(&DATA3);
    body.push(low);
    body.push(high);
    body
}

#[test]
fn layout_constants() {
    assert_eq!(START_MARKER, 0xFA);
    assert_eq!(INDEX_FIRST, 0xA0);
    assert_eq!(INDEX_LAST, 0xF9);
    assert_eq!(FRAME_COUNT, 90);
    assert_eq!(SLOT_COUNT, 360);
    assert_eq!(BODY_LEN, 20);
    assert_eq!(UNAVAILABLE, -1);
    assert_eq!(usize::from(INDEX_LAST - INDEX_FIRST) + 1, usize::from(FRAME_COUNT));
    assert_eq!(usize::from(FRAME_COUNT) * 4, SLOT_COUNT);
}

#[test]
fn checksum_of_known_frame() {
    assert_eq!(checksum(0, &SPEED, &DATA0, &DATA1, &DATA2, &DATA3), 23521);
    assert_eq!(checksum(0, &SPEED, &DATA0, &DATA1, &DATA2, &DATA3), 0x5BE1);
}

#[test]
fn checksum_depends_on_index() {
    assert_eq!(checksum(7, &SPEED, &DATA0, &DATA1, &DATA2, &DATA3), 23549);
    assert_eq!(checksum(89, &SPEED, &DATA0, &DATA1, &DATA2, &DATA3), 23877);
}

#[test]
fn checksum_of_all_zero_frame() {
    let zero2: [u8; 2] = [0; 2];
    let zero4: [u8; 4] = [0; 4];
    assert_eq!(checksum(0, &zero2, &zero4, &zero4, &zero4, &zero4), 30339);
}

#[test]
fn checksum_of_largest_input() {
    let full2: [u8; 2] = [0xFF; 2];
    let full4: [u8; 4] = [0xFF; 4];
    assert_eq!(checksum(95, &full2, &full4, &full4, &full4, &full4), 31230);
}

#[test]
fn checksum_fits_fifteen_bits() {
    let mut seed: u32 = 12345;
    let mut round: u32 = 0;
    while round < 2000 {
        let mut bytes: [u8; 18] = [0; 18];
        let mut i: usize = 0;
        while i < 18 {
            seed = seed.wrapping_mul(1664525).wrapping_add(1013904223);
            bytes[i] = (seed >> 24) as u8;
            i += 1;
        }
        let idx: u8 = (round % 90) as u8;
        let c: u32 = checksum(
            idx,
            &bytes[0..2],
            &bytes[2..6],
            &bytes[6..10],
            &bytes[10..14],
            &bytes[14..18],
        );
        assert!(c < 0x8000);
        round += 1;
    }
}

#[test]
fn checksum_reads_only_the_leading_bytes() {
    let long_speed: [u8; 3] = [0x70, 0x4B, 0xEE];
    let long_data0: [u8; 6] = [0x10, 0x00, 0x05, 0x00, 0xAA, 0xBB];
    assert_eq!(checksum(0, &long_speed, &long_data0, &DATA1, &DATA2, &DATA3), 23521);
}

#[test]
fn parse_small_values() {
    assert_eq!(parse_data_packet(&[0x10, 0x00, 0x05, 0x00]), (16, 5));
}

#[test]
fn parse_largest_values() {
    assert_eq!(parse_data_packet(&[0xFF, 0x3F, 0xFF, 0xFF]), (16383, 65535));
}

#[test]
fn parse_drops_the_flag_bits() {
    assert_eq!(parse_data_packet(&[0xFF, 0xFF, 0x00, 0x00]), (16383, 0));
    assert_eq!(parse_data_packet(&[0x00, 0x80, 0x01, 0x00]), (0, 1));
    assert_eq!(parse_data_packet(&[0x00, 0x40, 0x00, 0x00]), (0, 0));
    assert_eq!(parse_data_packet(&[0x34, 0xD2, 0x78, 0x56]), (0x1234, 0x5678));
}

#[test]
fn parse_is_little_endian() {
    assert_eq!(parse_data_packet(&[0x34, 0x12, 0x78, 0x56]), (0x1234, 0x5678));
    assert_eq!(parse_data_packet(&[0x00, 0x01, 0x00, 0x01]), (256, 256));
    assert_eq!(parse_data_packet(&[0x00, 0x00, 0x00, 0x00]), (0, 0));
}

#[test]
fn incoming_checksum_takes_all_sixteen_bits() {
    assert_eq!(incoming_checksum(&[0xE1, 0x5B]), 0x5BE1);
    assert_eq!(incoming_checksum(&[0x00, 0x80]), 0x8000);
    assert_eq!(incoming_checksum(&[0xFF, 0xFF]), 0xFFFF);
    assert_eq!(incoming_checksum(&[0x01, 0x00]), 1);
}

#[test]
fn body_with_matching_checksum_is_valid() {
    assert!(verify_body(0, &fixture_body(0xE1, 0x5B)));
    assert!(verify_body(7, &fixture_body(0xFD, 0x5B)));
    assert!(verify_body(89, &fixture_body(0x45, 0x5D)));
}

#[test]
fn body_under_another_index_is_invalid() {
    assert!(!verify_body(1, &fixture_body(0xE1, 0x5B)));
}

#[test]
fn body_with_corrupt_checksum_is_invalid() {
    assert!(!verify_body(0, &fixture_body(0xE0, 0x5B)));
    assert!(!verify_body(0, &fixture_body(0xE1, 0x5A)));
}

#[test]
fn checksum_field_with_top_bit_never_matches() {
    assert!(!verify_body(0, &fixture_body(0xE1, 0xDB)));
}

#[test]
fn body_with_corrupt_data_is_invalid() {
    let mut body: Vec<u8> = fixture_body(0xE1, 0x5B);
    body[5] ^= 0x01;
    assert!(!verify_body(0, &body));
}
