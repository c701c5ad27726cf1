use ti_i2c::errors::PacketError;
use ti_i2c::parser::{Packet, PacketParser};
use ti_i2c::usb::{report_from_response, request_from_report};

#[test]
fn request_is_read_behind_the_prefix() {
    let parser = PacketParser::new();
    let mut report = [0u8; 64];
    report[0] = 0x3F;
    report[1] = 11;
    report[2..13].copy_from_slice(&[0xAA, 0x1D, 0, 0, 0, 3, 0x90, 0x10, 4, 0x28, 0x55]);
    let p = request_from_report(&parser, &report).unwrap();
    assert_eq!(p.action, 0x1D);
    assert_eq!(p.payload, &[0x90, 0x10, 4]);
}

#[test]
fn report_shorter_than_prefix_is_len() {
    let parser = PacketParser::new();
    assert_eq!(request_from_report(&parser, &[0x3F]).unwrap_err(), PacketError::Len);
}

#[test]
fn response_report_has_id_length_and_frame() {
    let parser = PacketParser::new();
    let mut report = [0x77u8; 63];
    let n = report_from_response(&parser, &mut report, &Packet::new(0xC0, &[6, 66])).unwrap();
    assert_eq!(n, 10);
    assert_eq!(&report[..12], &[0x01, 10, 0xAA, 0xC0, 0, 0, 0, 2, 6, 66, 0xAE, 0x55]);
    assert!(report[12..].iter().all(|&b| b == 0));
}

#[test]
fn response_too_large_for_report_is_len() {
    let parser = PacketParser::new();
    let payload = [0u8; 54];
    let mut report = [0x77u8; 63];
    let r = report_from_response(&parser, &mut report, &Packet::new(0x52, &payload));
    assert_eq!(r, Err(PacketError::Len));
    assert_eq!(report, [0x77u8; 63]);
}
