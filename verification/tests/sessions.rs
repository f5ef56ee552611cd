//! Session state machine and polling-loop scenarios.

use smartmeter::command::Command;
use smartmeter::parser::Response;
use smartmeter::poll::{poll_tick_step, PollStep, RecvEvent};
use smartmeter::session::{start, Phase, Session, SessionStep};
use smartmeter::types::{IpAddr, PanDesc};
use smartmeter::SessionError;
use smartmeter::echonet::{ElFrame, ElProperty};

fn addr() -> IpAddr {
    IpAddr { bytes: b"FE80:0000:0000:0000:021D:1290:1234:ABCD".to_vec() }
}

fn pan(channel: u8) -> PanDesc {
    PanDesc { channel, pan_id: 0x8888, addr: b"001D129012345678".to_vec() }
}

fn event(num: u8) -> Response {
    Response::Event { num, sender: addr(), param: None }
}

fn meter_frame(props: Vec<ElProperty>) -> Response {
    Response::RxUdp {
        sender: addr(),
        frame: ElFrame { tid: 1, seoj: 0x028801, deoj: 0x05FF01, esv: 0x72, props },
    }
}

fn session_at(phase: Phase) -> Session {
    Session {
        phase,
        id: b"00112233445566778899AABBCCDDEEFF".to_vec(),
        pwd: b"0123456789AB".to_vec(),
        pan: None,
        ipaddr: Some(addr()),
        unit_exp: None,
    }
}

#[test]
fn handshake_happy_path_sends_each_command_in_order() {
    let (mut s, first) = start(
        b"00112233445566778899AABBCCDDEEFF".to_vec(),
        b"0123456789AB".to_vec(),
    );
    assert!(matches!(first, Command::SkReset));

    assert!(matches!(
        s.on_response(&Response::ResetAck),
        SessionStep::Send(Command::SkSetRbid { .. })
    ));
    assert!(matches!(
        s.on_response(&Response::IdAck),
        SessionStep::Send(Command::SkSetPwd { .. })
    ));
    match s.on_response(&Response::PwdAck) {
        SessionStep::Send(Command::ActiveScan { duration }) => assert_eq!(duration, 6),
        _ => panic!("expected the scan command"),
    }
    assert!(matches!(s.on_response(&Response::ScanAck), SessionStep::Wait));
    assert!(matches!(
        s.on_response(&Response::PanAdvert { desc: pan(0x21) }),
        SessionStep::Wait
    ));
    match s.on_response(&event(0x22)) {
        SessionStep::Send(Command::SkSreg { sreg, val }) => {
            assert_eq!(sreg, 2);
            assert_eq!(val, 0x21);
        }
        _ => panic!("expected the channel register write"),
    }
    match s.on_response(&Response::SregAck) {
        SessionStep::Send(Command::SkSreg { sreg, val }) => {
            assert_eq!(sreg, 3);
            assert_eq!(val, 0x8888);
        }
        _ => panic!("expected the pan-id register write"),
    }
    match s.on_response(&Response::SregAck) {
        SessionStep::Send(Command::SkLl64 { addr64 }) => {
            assert_eq!(addr64, b"001D129012345678".to_vec());
        }
        _ => panic!("expected the address resolution"),
    }
    match s.on_response(&Response::Ll64 { ipaddr: addr() }) {
        SessionStep::Send(Command::SkJoin { ipaddr }) => {
            assert_eq!(ipaddr.bytes, addr().bytes);
        }
        _ => panic!("expected the join"),
    }
    assert!(matches!(s.on_response(&Response::JoinAck), SessionStep::Wait));
    assert!(matches!(
        s.on_response(&event(0x25)),
        SessionStep::Send(Command::SendCumulativeEnergyUnitRequest { .. })
    ));
    let unit = meter_frame(vec![ElProperty { epc: 0xE1, edt: vec![0x0B] }]);
    match s.on_response(&unit) {
        SessionStep::Done { unit_exp, .. } => assert_eq!(unit_exp, 2),
        _ => panic!("expected the session to finish"),
    }
    assert_eq!(s.phase, Phase::Ready);
}

#[test]
fn scan_keeps_the_last_result() {
    // scan-started ack, results for channels 33 and 36, then scan-complete
    let mut s = session_at(Phase::AwaitScanAck);
    assert!(matches!(s.on_response(&Response::ScanAck), SessionStep::Wait));
    assert!(matches!(
        s.on_response(&Response::PanAdvert { desc: pan(33) }),
        SessionStep::Wait
    ));
    assert!(matches!(
        s.on_response(&Response::PanAdvert { desc: pan(36) }),
        SessionStep::Wait
    ));
    match s.on_response(&event(0x22)) {
        SessionStep::Send(Command::SkSreg { sreg, val }) => {
            assert_eq!(sreg, 2);
            assert_eq!(val, 36);
        }
        _ => panic!("expected the channel register write"),
    }
    assert_eq!(s.pan.as_ref().unwrap().channel, 36);
}

#[test]
fn scan_complete_without_any_result_fails() {
    let mut s = session_at(Phase::Scanning);
    match s.on_response(&event(0x22)) {
        SessionStep::Fail(e) => assert_eq!(e, SessionError::NoCoordinator),
        _ => panic!("expected a failure"),
    }
}

#[test]
fn pana_wait_ignores_unrelated_events_and_accepts_success() {
    let mut s = session_at(Phase::AwaitPana);
    assert!(matches!(s.on_response(&event(0x99)), SessionStep::Wait));
    assert!(matches!(s.on_response(&Response::ReadTimeout), SessionStep::Wait));
    assert!(matches!(
        s.on_response(&event(0x25)),
        SessionStep::Send(Command::SendCumulativeEnergyUnitRequest { .. })
    ));
    assert_eq!(s.phase, Phase::AwaitUnit);
}

#[test]
fn pana_failure_event_fails_the_sequence() {
    let mut s = session_at(Phase::AwaitPana);
    match s.on_response(&event(0x24)) {
        SessionStep::Fail(e) => assert_eq!(e, SessionError::PanaFailure),
        _ => panic!("expected a failure"),
    }
    assert_eq!(s.phase, Phase::Failed);
}

#[test]
fn wrong_ack_aborts_the_sequence() {
    let mut s = session_at(Phase::AwaitResetAck);
    match s.on_response(&Response::JoinAck) {
        SessionStep::Fail(e) => assert_eq!(e, SessionError::AckMismatch),
        _ => panic!("expected a failure"),
    }
    // a read timeout in an ack step is a mismatch too
    let mut s2 = session_at(Phase::AwaitIdAck);
    match s2.on_response(&Response::ReadTimeout) {
        SessionStep::Fail(e) => assert_eq!(e, SessionError::AckMismatch),
        _ => panic!("expected a failure"),
    }
}

#[test]
fn deadline_fails_as_timeout() {
    let mut s = session_at(Phase::AwaitUnit);
    match s.on_deadline() {
        SessionStep::Fail(e) => assert_eq!(e, SessionError::Timeout),
        _ => panic!("expected a failure"),
    }
}

#[test]
fn nonzero_send_result_fails_the_unit_step() {
    let mut s = session_at(Phase::AwaitUnit);
    assert!(matches!(
        s.on_response(&Response::SendResult { sender: addr(), result: 0 }),
        SessionStep::Wait
    ));
    match s.on_response(&Response::SendResult { sender: addr(), result: 1 }) {
        SessionStep::Fail(e) => assert_eq!(e, SessionError::SendFailed),
        _ => panic!("expected a failure"),
    }
}

#[test]
fn undefined_unit_byte_fails_the_unit_step() {
    let mut s = session_at(Phase::AwaitUnit);
    let unit = meter_frame(vec![ElProperty { epc: 0xE1, edt: vec![0x55] }]);
    match s.on_response(&unit) {
        SessionStep::Fail(e) => assert_eq!(e, SessionError::ScaleDecode),
        _ => panic!("expected a failure"),
    }
}

#[test]
fn unit_byte_0x0b_gives_scale_100() {
    let mut s = session_at(Phase::AwaitUnit);
    let unit = meter_frame(vec![ElProperty { epc: 0xE1, edt: vec![0x0B] }]);
    match s.on_response(&unit) {
        SessionStep::Done { unit_exp, .. } => {
            assert_eq!(10f64.powi(unit_exp as i32), 100.0);
        }
        _ => panic!("expected the session to finish"),
    }
}

#[test]
fn instantaneous_payload_gives_raw_magnitude() {
    // payload 00 00 02 9A is 666; the gauge value is 666.0 unscaled
    let r = meter_frame(vec![ElProperty { epc: 0xE7, edt: vec![0x00, 0x00, 0x02, 0x9A] }]);
    match poll_tick_step(&RecvEvent::Item(r)) {
        PollStep::Reading { instantaneous, cumulative } => {
            assert_eq!(instantaneous, Some(666));
            assert_eq!(cumulative, None);
            assert_eq!(instantaneous.unwrap() as f64, 666.0);
        }
        _ => panic!("expected readings"),
    }
}

#[test]
fn cumulative_trailing_bytes_scaled_by_unit() {
    // 11-byte payload: 7-byte timestamp then 00 00 00 64 (100 raw);
    // with unit byte 0x0B the reported energy is 100.0 * 100 = 10000.0
    let edt = vec![0x07, 0xE5, 0x01, 0x02, 0x03, 0x04, 0x05, 0x00, 0x00, 0x00, 0x64];
    let r = meter_frame(vec![ElProperty { epc: 0xEA, edt }]);
    match poll_tick_step(&RecvEvent::Item(r)) {
        PollStep::Reading { instantaneous, cumulative } => {
            assert_eq!(instantaneous, None);
            assert_eq!(cumulative, Some(100));
            let scale = 10f64.powi(2);
            assert_eq!(cumulative.unwrap() as f64 * scale, 10000.0);
        }
        _ => panic!("expected readings"),
    }
}

#[test]
fn queue_closure_mid_tick_is_channel_closed_not_timeout() {
    let out = poll_tick_step(&RecvEvent::Closed);
    assert_eq!(out, PollStep::ChannelClosed);
    assert_ne!(out, PollStep::KeepWaiting);
}

#[test]
fn poll_ignores_foreign_traffic() {
    assert_eq!(poll_tick_step(&RecvEvent::Item(Response::ReadTimeout)), PollStep::KeepWaiting);
    assert_eq!(
        poll_tick_step(&RecvEvent::Item(Response::SendResult { sender: addr(), result: 0 })),
        PollStep::KeepWaiting
    );
    match poll_tick_step(&RecvEvent::Item(Response::SendResult { sender: addr(), result: 2 })) {
        PollStep::SendFailed => {}
        _ => panic!("expected the tick to fail"),
    }
    // a datagram from another object is waited out
    let foreign = Response::RxUdp {
        sender: addr(),
        frame: ElFrame { tid: 1, seoj: 0x0EF001, deoj: 0x05FF01, esv: 0x72, props: vec![] },
    };
    assert_eq!(poll_tick_step(&RecvEvent::Item(foreign)), PollStep::KeepWaiting);
}
