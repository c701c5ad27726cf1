use ti_i2c::errors::PacketError;
use ti_i2c::parser::{Packet, PacketParser};
use ti_i2c::ti;

fn encode(action: u8, payload: &[u8], capacity: usize) -> (Vec<u8>, usize) {
    let parser = PacketParser::new();
    let mut buffer = vec![0xEEu8; capacity];
    let n = parser
        .outgoing(&mut buffer, &Packet::new(action, payload))
        .expect("frame fits");
    (buffer, n)
}

#[test]
fn status_frame_exact_bytes() {
    let (buffer, n) = encode(0xC0, &[6, 66], 12);
    assert_eq!(n, 10);
    assert_eq!(
        buffer,
        vec![0xAA, 0xC0, 0, 0, 0, 2, 6, 66, 0xAE, 0x55, 0, 0]
    );
}

#[test]
fn error_frame_exact_bytes() {
    let (buffer, n) = encode(0x46, &[0, 0x93], 10);
    assert_eq!(n, 10);
    assert_eq!(buffer, vec![0xAA, 0x46, 0, 0, 0, 2, 0, 0x93, 0xAF, 0x55]);
}

#[test]
fn empty_payload_frame_exact_bytes() {
    let (buffer, n) = encode(0x80, &[], 8);
    assert_eq!(n, 8);
    assert_eq!(buffer, vec![0xAA, 0x80, 0, 0, 0, 0, 0x97, 0x55]);
}

#[test]
fn decode_known_frame() {
    let parser = PacketParser::new();
    let frame = [0xAA, 0x1D, 0, 0, 0, 3, 0x90, 0x10, 4, 0x28, 0x55, 0xFF, 0xFF];
    let p = parser.incoming(&frame).unwrap();
    assert_eq!(p.action, 0x1D);
    assert_eq!(p.payload, &[0x90, 0x10, 4]);
}

#[test]
fn round_trip_various_payloads() {
    let parser = PacketParser::new();
    for len in [0usize, 1, 2, 53, 54, 200, 246] {
        let payload: Vec<u8> = (0..len).map(|i| (i * 7 + 3) as u8).collect();
        for extra in [0usize, 1, 9] {
            let (buffer, n) = encode(0x5A, &payload, len + 8 + extra);
            assert_eq!(n, len + 8);
            let p = parser.incoming(&buffer).unwrap();
            assert_eq!(p.action, 0x5A);
            assert_eq!(p.payload, &payload[..]);
            let p = parser.incoming(&buffer[..n]).unwrap();
            assert_eq!(p.payload, &payload[..]);
        }
    }
}

#[test]
fn largest_payload_round_trips() {
    let parser = PacketParser::new();
    let payload = vec![0xA5u8; 255];
    let (buffer, n) = encode(0x01, &payload, 263);
    assert_eq!(n, 263);
    assert_eq!(parser.incoming(&buffer).unwrap().payload, &payload[..]);
}

#[test]
fn encode_rejects_small_buffer_and_leaves_it() {
    let parser = PacketParser::new();
    let mut buffer = vec![0x11u8; 9];
    let r = parser.outgoing(&mut buffer, &Packet::new(0x52, &[1, 2]));
    assert_eq!(r, Err(PacketError::Len));
    assert_eq!(buffer, vec![0x11u8; 9]);
    let mut tiny = vec![0x22u8; 3];
    assert_eq!(parser.outgoing(&mut tiny, &Packet::new(0x52, &[])), Err(PacketError::Len));
    assert_eq!(tiny, vec![0x22u8; 3]);
}

#[test]
fn encode_rejects_payload_over_255() {
    let parser = PacketParser::new();
    let payload = vec![0u8; 256];
    let mut buffer = vec![0x33u8; 300];
    let r = parser.outgoing(&mut buffer, &Packet::new(0x52, &payload));
    assert_eq!(r, Err(PacketError::Len));
    assert_eq!(buffer, vec![0x33u8; 300]);
}

#[test]
fn decode_short_buffer_is_len() {
    let parser = PacketParser::new();
    assert_eq!(parser.incoming(&[]).unwrap_err(), PacketError::Len);
    assert_eq!(
        parser.incoming(&[0xAA, 0x80, 0, 0, 0, 0, 0x97]).unwrap_err(),
        PacketError::Len
    );
}

#[test]
fn every_truncation_is_len() {
    let parser = PacketParser::new();
    let (buffer, n) = encode(0x52, &[0, 0, 1, 2, 3, 4], 14);
    for k in 0..n {
        assert_eq!(parser.incoming(&buffer[..k]).unwrap_err(), PacketError::Len, "k = {}", k);
    }
}

#[test]
fn declared_length_beyond_buffer_is_len() {
    let parser = PacketParser::new();
    let frame = [0xAA, 0x80, 0, 0, 0, 200, 0x97, 0x55, 0, 0];
    assert_eq!(parser.incoming(&frame).unwrap_err(), PacketError::Len);
}

#[test]
fn corrupted_sentinels_are_format() {
    let parser = PacketParser::new();
    let (buffer, n) = encode(0x1E, &[0x90, 0x10, 2, 0xAB, 0xCD], 16);
    for value in [0x00u8, 0xAB, 0xFF] {
        let mut start = buffer.clone();
        start[0] = value;
        assert_eq!(parser.incoming(&start).unwrap_err(), PacketError::Format);
    }
    for value in [0x00u8, 0x54, 0xFF] {
        let mut end = buffer.clone();
        end[n - 1] = value;
        assert_eq!(parser.incoming(&end).unwrap_err(), PacketError::Format);
    }
}

#[test]
fn single_bit_flips_are_checksum() {
    let parser = PacketParser::new();
    let (buffer, n) = encode(0x1D, &[0x90, 0x10, 4, 0x77], 14);
    for pos in 1..n - 2 {
        if pos == 5 {
            continue;
        }
        for bit in 0..8 {
            let mut flipped = buffer.clone();
            flipped[pos] ^= 1 << bit;
            assert_eq!(
                parser.incoming(&flipped).unwrap_err(),
                PacketError::Checksum,
                "pos {} bit {}",
                pos,
                bit
            );
        }
    }
}

#[test]
fn wrong_checksum_byte_is_checksum() {
    let parser = PacketParser::new();
    let frame = [0xAA, 0x80, 0, 0, 0, 0, 0x96, 0x55];
    assert_eq!(parser.incoming(&frame).unwrap_err(), PacketError::Checksum);
}

#[test]
fn max_payload_of_capacity() {
    assert_eq!(Packet::max_payload(62), 54);
    assert_eq!(Packet::max_payload(8), 0);
    assert_eq!(Packet::max_payload(3), 0);
}

#[test]
fn in_place_parse_decodes_and_leaves_buffer() {
    let parser = ti::PacketParser::new();
    let mut frame = [0xAA, 0x1D, 0, 0, 0, 3, 0x90, 0x10, 4, 0x28, 0x55, 0xFF];
    let (action, payload) = parser.parse(&mut frame).unwrap();
    assert_eq!(action, 0x1D);
    assert_eq!(payload, &[0x90, 0x10, 4]);
    assert_eq!(frame, [0xAA, 0x1D, 0, 0, 0, 3, 0x90, 0x10, 4, 0x28, 0x55, 0xFF]);
}

#[test]
fn in_place_parse_errors() {
    let parser = ti::PacketParser::new();
    let mut short = [0xAA, 0x80, 0, 0, 0, 0, 0x97];
    assert_eq!(parser.parse(&mut short).unwrap_err(), PacketError::Len);

    let mut bad_start = [0xAB, 0x80, 0, 0, 0, 0, 0x97, 0x55];
    assert_eq!(parser.parse(&mut bad_start).unwrap_err(), PacketError::Format);
    assert_eq!(bad_start, [0xAB, 0x80, 0, 0, 0, 0, 0x97, 0x55]);

    let mut bad_sum = [0xAA, 0x80, 0, 0, 0, 0, 0x96, 0x55];
    assert_eq!(parser.parse(&mut bad_sum).unwrap_err(), PacketError::Checksum);
    assert_eq!(bad_sum, [0xAA, 0x80, 0, 0, 0, 0, 0x96, 0x55]);
}
