//! Frame parser: framing shapes, incremental feeding, and error cases.

use smartmeter::parser::{parse, ParseOutcome, Response};

fn epandesc_block() -> Vec<u8> {
    let mut v = Vec::new();
    v.extend_from_slice(b"EPANDESC\r\n");
    v.extend_from_slice(b"  Channel:21\r\n");
    v.extend_from_slice(b"  Channel Page:09\r\n");
    v.extend_from_slice(b"  Pan ID:8888\r\n");
    v.extend_from_slice(b"  Addr:001D129012345678\r\n");
    v.extend_from_slice(b"  LQI:E1\r\n");
    v.extend_from_slice(b"  PairID:00112233\r\n");
    v
}

fn erxudp_with(payload: &[u8]) -> Vec<u8> {
    let mut v = Vec::new();
    v.extend_from_slice(b"ERXUDP FE80:0000:0000:0000:021D:1290:1234:ABCD ");
    v.extend_from_slice(b"FF02:0000:0000:0000:0000:0000:0000:0001 ");
    v.extend_from_slice(b"0E1A 0E1A 001D129012345678 1 ");
    v.extend_from_slice(format!("{:04X} ", payload.len()).as_bytes());
    v.extend_from_slice(payload);
    v.extend_from_slice(b"\r\n");
    v
}

fn meter_payload() -> Vec<u8> {
    vec![
        0x10, 0x81, 0x00, 0x01, 0x02, 0x88, 0x01, 0x05, 0xFF, 0x01, 0x72, 0x01, 0xE7, 0x04, 0x00,
        0x00, 0x02, 0x9A,
    ]
}

#[test]
fn simple_ack_lines() {
    match parse(b"SKRESET\r\n") {
        ParseOutcome::Found { resp, used } => {
            assert_eq!(resp, Response::ResetAck);
            assert_eq!(used, 9);
        }
        _ => panic!("expected a response"),
    }
    assert!(matches!(
        parse(b"SKSETRBID 00112233445566778899AABBCCDDEEFF\r\n"),
        ParseOutcome::Found { resp: Response::IdAck, .. }
    ));
    assert!(matches!(
        parse(b"SKSETPWD C 0123456789AB\r\n"),
        ParseOutcome::Found { resp: Response::PwdAck, .. }
    ));
    assert!(matches!(
        parse(b"SKSCAN 2 FFFFFFFF 6\r\n"),
        ParseOutcome::Found { resp: Response::ScanAck, .. }
    ));
    assert!(matches!(
        parse(b"SKSREG S2 21\r\n"),
        ParseOutcome::Found { resp: Response::SregAck, .. }
    ));
    assert!(matches!(
        parse(b"SKJOIN FE80:0000:0000:0000:021D:1290:1234:ABCD\r\n"),
        ParseOutcome::Found { resp: Response::JoinAck, .. }
    ));
}

#[test]
fn ll64_consumes_echo_and_address_line() {
    let mut v = b"SKLL64 001D129012345678\r\n".to_vec();
    v.extend_from_slice(b"FE80:0000:0000:0000:021D:1290:1234:ABCD\r\n");
    match parse(&v) {
        ParseOutcome::Found { resp: Response::Ll64 { ipaddr }, used } => {
            assert_eq!(ipaddr.bytes, b"FE80:0000:0000:0000:021D:1290:1234:ABCD".to_vec());
            assert_eq!(used, v.len());
        }
        _ => panic!("expected the resolved address"),
    }
    // echo alone: the address line is still outstanding
    assert!(matches!(parse(b"SKLL64 001D129012345678\r\n"), ParseOutcome::More));
}

#[test]
fn scan_result_block() {
    let v = epandesc_block();
    match parse(&v) {
        ParseOutcome::Found { resp: Response::PanAdvert { desc }, used } => {
            assert_eq!(desc.channel, 0x21);
            assert_eq!(desc.pan_id, 0x8888);
            assert_eq!(desc.addr, b"001D129012345678".to_vec());
            assert_eq!(used, v.len());
        }
        _ => panic!("expected a scan result"),
    }
    // an unfinished block asks for more bytes
    assert!(matches!(parse(&v[..v.len() - 10]), ParseOutcome::More));
}

#[test]
fn event_lines() {
    match parse(b"EVENT 22 FE80:0000:0000:0000:021D:1290:1234:ABCD\r\n") {
        ParseOutcome::Found { resp: Response::Event { num, param, .. }, .. } => {
            assert_eq!(num, 0x22);
            assert_eq!(param, None);
        }
        _ => panic!("expected an event"),
    }
    match parse(b"EVENT 25 FE80:0000:0000:0000:021D:1290:1234:ABCD 00\r\n") {
        ParseOutcome::Found { resp: Response::Event { num, param, .. }, .. } => {
            assert_eq!(num, 0x25);
            assert_eq!(param, Some(0));
        }
        _ => panic!("expected an event"),
    }
    // event 0x21 is the transmission report
    match parse(b"EVENT 21 FE80:0000:0000:0000:021D:1290:1234:ABCD 01\r\n") {
        ParseOutcome::Found { resp: Response::SendResult { result, .. }, .. } => {
            assert_eq!(result, 1);
        }
        _ => panic!("expected a send result"),
    }
}

#[test]
fn datagram_with_terminator_bytes_inside_payload() {
    // the embedded frame carries 0x0D 0x0A inside a property payload
    let payload = vec![
        0x10, 0x81, 0x00, 0x01, 0x02, 0x88, 0x01, 0x05, 0xFF, 0x01, 0x72, 0x01, 0x80, 0x04, 0x0D,
        0x0A, 0x0D, 0x0A,
    ];
    let v = erxudp_with(&payload);
    match parse(&v) {
        ParseOutcome::Found { resp: Response::RxUdp { sender, frame }, used } => {
            assert_eq!(used, v.len());
            assert_eq!(sender.bytes, b"FE80:0000:0000:0000:021D:1290:1234:ABCD".to_vec());
            assert_eq!(frame.props.len(), 1);
            assert_eq!(frame.props[0].edt, vec![0x0D, 0x0A, 0x0D, 0x0A]);
        }
        _ => panic!("expected a datagram"),
    }
}

#[test]
fn short_binary_payload_yields_incomplete_never_a_short_response() {
    let v = erxudp_with(&meter_payload());
    // every strict prefix that cuts into the payload must ask for more
    for cut in 121..v.len() {
        assert!(matches!(parse(&v[..cut]), ParseOutcome::More), "cut at {}", cut);
    }
    assert!(matches!(parse(&v), ParseOutcome::Found { .. }));
}

#[test]
fn empty_and_unterminated_input_ask_for_more() {
    assert!(matches!(parse(b""), ParseOutcome::More));
    assert!(matches!(parse(b"SKRES"), ParseOutcome::More));
    assert!(matches!(parse(b"ERXUD"), ParseOutcome::More));
    assert!(matches!(parse(b"EVENT 22 FE80:"), ParseOutcome::More));
}

#[test]
fn malformed_lines_are_fatal() {
    assert!(matches!(parse(b"GARBAGE\r\n"), ParseOutcome::Bad));
    assert!(matches!(parse(b"EVENT 2X FE80:0000:0000:0000:021D:1290:1234:ABCD\r\n"),
        ParseOutcome::Bad));
    // declared length right, embedded frame truncated against its count
    let bad_payload = vec![0x10, 0x81, 0x00, 0x01, 0x02, 0x88, 0x01, 0x05, 0xFF, 0x01, 0x72, 0x02];
    assert!(matches!(parse(&erxudp_with(&bad_payload)), ParseOutcome::Bad));
}

/// Drain every complete response from the front of `pending`.
fn drain(pending: &mut Vec<u8>, out: &mut Vec<Response>) -> bool {
    loop {
        match parse(pending) {
            ParseOutcome::Found { resp, used } => {
                out.push(resp);
                *pending = pending[used..].to_vec();
            }
            ParseOutcome::More => return true,
            ParseOutcome::Bad => return false,
        }
    }
}

#[test]
fn byte_at_a_time_equals_whole_buffer() {
    let mut stream = Vec::new();
    stream.extend_from_slice(b"SKRESET\r\n");
    stream.extend_from_slice(b"EVENT 25 FE80:0000:0000:0000:021D:1290:1234:ABCD 00\r\n");
    stream.extend_from_slice(&epandesc_block());
    stream.extend_from_slice(&erxudp_with(&meter_payload()));
    stream.extend_from_slice(b"SKSREG S2 21\r\n");

    let mut whole_pending = stream.clone();
    let mut whole = Vec::new();
    assert!(drain(&mut whole_pending, &mut whole));

    let mut pending: Vec<u8> = Vec::new();
    let mut incremental = Vec::new();
    for byte in stream.iter() {
        pending.push(*byte);
        assert!(drain(&mut pending, &mut incremental));
    }
    assert_eq!(incremental, whole);
    assert_eq!(pending, whole_pending);
    assert_eq!(incremental.len(), 5);
}
