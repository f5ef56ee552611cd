//! Appliance-object codec and scale-table behaviour.

use smartmeter::echonet::{be32_at, decode_frame, decode_scale, encode_frame, ElFrame, ElProperty};
use smartmeter::SessionError;

fn multiplier(exp: i8) -> f64 {
    10f64.powi(exp as i32)
}

#[test]
fn scale_codes_give_documented_multipliers() {
    let table: [(u8, f64); 10] = [
        (0x00, 1.0),
        (0x01, 0.1),
        (0x02, 0.01),
        (0x03, 0.001),
        (0x04, 0.0001),
        (0x0A, 10.0),
        (0x0B, 100.0),
        (0x0C, 1000.0),
        (0x0D, 10000.0),
        (0x0B, 100.0),
    ];
    for (code, want) in table.iter() {
        let exp = decode_scale(*code).expect("defined code must decode");
        assert_eq!(multiplier(exp), *want);
    }
}

#[test]
fn undefined_scale_codes_fail() {
    for code in 0u8..=255 {
        let defined = matches!(code, 0x00..=0x04 | 0x0A..=0x0D);
        match decode_scale(code) {
            Ok(_) => assert!(defined),
            Err(e) => {
                assert!(!defined);
                assert_eq!(e, SessionError::ScaleDecode);
            }
        }
    }
}

#[test]
fn frame_round_trip_preserves_properties() {
    let frame = ElFrame {
        tid: 0x1234,
        seoj: 0x05FF01,
        deoj: 0x028801,
        esv: 0x62,
        props: vec![
            ElProperty { epc: 0xE7, edt: vec![0x00, 0x00, 0x02, 0x9A] },
            ElProperty { epc: 0xE1, edt: vec![] },
            ElProperty { epc: 0x80, edt: vec![0x30, 0x0D, 0x0A] },
        ],
    };
    let bytes = encode_frame(&frame);
    let back = decode_frame(&bytes).expect("own encoding must decode");
    assert_eq!(back.tid, 0x1234);
    assert_eq!(back.seoj, 0x05FF01);
    assert_eq!(back.deoj, 0x028801);
    assert_eq!(back.esv, 0x62);
    assert_eq!(back.props.len(), 3);
    assert_eq!(back.props[0].epc, 0xE7);
    assert_eq!(back.props[0].edt, vec![0x00, 0x00, 0x02, 0x9A]);
    assert_eq!(back.props[1].epc, 0xE1);
    assert!(back.props[1].edt.is_empty());
    assert_eq!(back.props[2].edt, vec![0x30, 0x0D, 0x0A]);
}

#[test]
fn truncated_property_payload_is_rejected() {
    // header says one property of length 4, but only 2 payload bytes follow
    let bytes = vec![
        0x10, 0x81, 0x00, 0x01, 0x02, 0x88, 0x01, 0x05, 0xFF, 0x01, 0x72, 0x01, 0xE7, 0x04, 0x00,
        0x00,
    ];
    assert!(decode_frame(&bytes).is_none());
}

#[test]
fn trailing_bytes_after_declared_properties_are_rejected() {
    let bytes = vec![
        0x10, 0x81, 0x00, 0x01, 0x02, 0x88, 0x01, 0x05, 0xFF, 0x01, 0x72, 0x01, 0xE1, 0x01, 0x00,
        0xAA,
    ];
    assert!(decode_frame(&bytes).is_none());
}

#[test]
fn wrong_header_is_rejected() {
    let bytes = vec![0x10, 0x82, 0x00, 0x01, 0x02, 0x88, 0x01, 0x05, 0xFF, 0x01, 0x72, 0x00];
    assert!(decode_frame(&bytes).is_none());
}

#[test]
fn big_endian_read() {
    let v = vec![0xDE, 0xAD, 0xBE, 0xEF, 0x00, 0x00, 0x00, 0x64];
    assert_eq!(be32_at(&v, 0), 0xDEADBEEF);
    assert_eq!(be32_at(&v, 4), 100);
}
