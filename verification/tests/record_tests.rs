use xv_lidar::record::{
    data_file_name, data_file_name_now, format_record, format_record_now, push_decimal,
};
use xv_lidar::sync::Decoder;

fn decimal_text(n: i32) -> String {
    let mut out = String::new();
    push_decimal(&mut out, n);
    out
}

#[test]
fn decimal_of_small_numbers() {
    assert_eq!(decimal_text(0), "0");
    assert_eq!(decimal_text(7), "7");
    assert_eq!(decimal_text(9), "9");
    assert_eq!(decimal_text(10), "10");
    assert_eq!(decimal_text(16383), "16383");
    assert_eq!(decimal_text(65535), "65535");
    assert_eq!(decimal_text(100000), "100000");
}

#[test]
fn decimal_of_negative_numbers() {
    assert_eq!(decimal_text(-1), "-1");
    assert_eq!(decimal_text(-10), "-10");
    assert_eq!(decimal_text(-907), "-907");
}

#[test]
fn decimal_of_extremes() {
    assert_eq!(decimal_text(i32::MAX), "2147483647");
    assert_eq!(decimal_text(i32::MIN), "-2147483648");
}

#[test]
fn decimal_agrees_with_display() {
    let mut seed: u32 = 99;
    let mut round: u32 = 0;
    while round < 5000 {
        seed = seed.wrapping_mul(1664525).wrapping_add(1013904223);
        let n: i32 = (seed >> (round % 32)) as i32;
        assert_eq!(decimal_text(n), format!("{}", n));
        assert_eq!(decimal_text(n.wrapping_neg()), format!("{}", n.wrapping_neg()));
        round += 1;
    }
}

#[test]
fn decimal_appends() {
    let mut out = String::from("x=");
    push_decimal(&mut out, 42);
    push_decimal(&mut out, -3);
    assert_eq!(out, "x=42-3");
}

#[test]
fn record_of_two_pairs() {
    assert_eq!(format_record("T", &[16, -1], &[5, -1]), "T,16,5,-1,-1,\n");
}

#[test]
fn record_of_no_pairs() {
    assert_eq!(format_record("2024-01-01 00:00:00 UTC", &[], &[]), "2024-01-01 00:00:00 UTC,\n");
    assert_eq!(format_record("", &[], &[]), ",\n");
}

#[test]
fn record_ends_with_the_shorter_buffer() {
    assert_eq!(format_record("T", &[1, 2, 3], &[9]), "T,1,9,\n");
    assert_eq!(format_record("T", &[1], &[9, 8, 7]), "T,1,9,\n");
}

#[test]
fn record_keeps_the_timestamp_as_it_is() {
    assert_eq!(format_record("a,b \u{e9}", &[0], &[0]), "a,b \u{e9},0,0,\n");
}

#[test]
fn record_of_a_fresh_decoder() {
    let decoder = Decoder::new();
    let record: String = decoder.record("now");
    let mut expected = String::from("now,");
    let mut i: usize = 0;
    while i < 360 {
        expected.push_str("-1,-1,");
        i += 1;
    }
    expected.push('\n');
    assert_eq!(record, expected);
}

#[test]
fn record_lists_the_degrees_in_order() {
    let mut distances: Vec<i32> = Vec::new();
    let mut qualities: Vec<i32> = Vec::new();
    let mut expected = String::from("stamp,");
    let mut i: i32 = 0;
    while i < 360 {
        distances.push(i * 3);
        qualities.push(1000 - i);
        expected.push_str(&format!("{},{},", i * 3, 1000 - i));
        i += 1;
    }
    expected.push('\n');
    let record: String = format_record("stamp", &distances, &qualities);
    assert_eq!(record, expected);
    assert_eq!(record.matches(',').count(), 721);
    assert!(record.ends_with(",\n"));
    assert_eq!(record.matches('\n').count(), 1);
}

#[test]
fn record_of_a_decoded_frame() {
    let mut decoder = Decoder::new();
    let frame: [u8; 22] = [
        0xFA, 0xA0, 0x70, 0x4B, 0x10, 0x00, 0x05, 0x00, 0xFF, 0x3F, 0xFF, 0xFF, 0x34, 0x12, 0x78,
        0x56, 0x00, 0x80, 0x01, 0x00, 0xE1, 0x5B,
    ];
    for b in frame {
        decoder.advance(b);
    }
    let record: String = decoder.record("t");
    assert!(record.starts_with("t,16,5,16383,65535,4660,22136,0,1,-1,-1,"));
    assert_eq!(record, format_record("t", decoder.distances(), decoder.qualities()));
}

#[test]
fn record_stamped_now() {
    let record: String = format_record_now(&[16, -1], &[5, -1]);
    assert!(record.ends_with(" UTC,16,5,-1,-1,\n"));
    let stamp: &str = &record[..record.len() - " UTC,16,5,-1,-1,\n".len()];
    assert!(stamp.len() >= 19);
    assert_eq!(&stamp[4..5], "-");
    assert_eq!(&stamp[7..8], "-");
    assert_eq!(&stamp[10..11], " ");
    assert_eq!(&stamp[13..14], ":");
    assert_eq!(&stamp[16..17], ":");
    assert!(stamp[0..4].parse::<u32>().is_ok());
}

#[test]
fn decoder_record_stamped_now() {
    let decoder = Decoder::new();
    let record: String = decoder.record_now();
    let body: String = decoder.record("");
    assert!(record.ends_with(&format!(" UTC{}", body)));
    assert_eq!(record.matches('\n').count(), 1);
}

#[test]
fn file_name_wraps_the_timestamp() {
    assert_eq!(data_file_name("2024-01-01 00:00:00 UTC"), "xv_meas_2024-01-01 00:00:00 UTC.csv");
    assert_eq!(data_file_name(""), "xv_meas_.csv");
}

#[test]
fn file_name_stamped_now() {
    let name: String = data_file_name_now();
    assert!(name.starts_with("xv_meas_"));
    assert!(name.ends_with(" UTC.csv"));
}
