//! Command encoder: exact rendered lines and the terminator rule.

use smartmeter::command::{encode_cmd, Command};
use smartmeter::types::IpAddr;

fn addr() -> IpAddr {
    IpAddr { bytes: b"FE80:0000:0000:0000:021D:1290:1234:ABCD".to_vec() }
}

#[test]
fn reset_line() {
    assert_eq!(encode_cmd(&Command::SkReset), b"SKRESET\r\n".to_vec());
}

#[test]
fn credential_lines() {
    let id = encode_cmd(&Command::SkSetRbid { id: b"00112233445566778899AABBCCDDEEFF".to_vec() });
    assert_eq!(id, b"SKSETRBID 00112233445566778899AABBCCDDEEFF\r\n".to_vec());
    let pwd = encode_cmd(&Command::SkSetPwd { pwd: b"0123456789AB".to_vec() });
    assert_eq!(pwd, b"SKSETPWD C 0123456789AB\r\n".to_vec());
}

#[test]
fn scan_line() {
    assert_eq!(
        encode_cmd(&Command::ActiveScan { duration: 6 }),
        b"SKSCAN 2 FFFFFFFF 6\r\n".to_vec()
    );
}

#[test]
fn sreg_lines() {
    assert_eq!(
        encode_cmd(&Command::SkSreg { sreg: 2, val: 0x21 }),
        b"SKSREG S2 21\r\n".to_vec()
    );
    assert_eq!(
        encode_cmd(&Command::SkSreg { sreg: 3, val: 0x8888 }),
        b"SKSREG S3 8888\r\n".to_vec()
    );
}

#[test]
fn address_lines() {
    assert_eq!(
        encode_cmd(&Command::SkLl64 { addr64: b"001D129012345678".to_vec() }),
        b"SKLL64 001D129012345678\r\n".to_vec()
    );
    assert_eq!(
        encode_cmd(&Command::SkJoin { ipaddr: addr() }),
        b"SKJOIN FE80:0000:0000:0000:021D:1290:1234:ABCD\r\n".to_vec()
    );
}

#[test]
fn unit_request_line() {
    let line = encode_cmd(&Command::SendCumulativeEnergyUnitRequest { ipaddr: addr() });
    let mut want = b"SKSENDTO 1 FE80:0000:0000:0000:021D:1290:1234:ABCD 0E1A 1 000E ".to_vec();
    want.extend_from_slice(&[
        0x10, 0x81, 0x00, 0x01, 0x05, 0xFF, 0x01, 0x02, 0x88, 0x01, 0x62, 0x01, 0xE1, 0x00,
    ]);
    want.extend_from_slice(b"\r\n");
    assert_eq!(line, want);
}

#[test]
fn energy_request_line() {
    let line = encode_cmd(&Command::SendEnergyRequest { ipaddr: addr() });
    let mut want = b"SKSENDTO 1 FE80:0000:0000:0000:021D:1290:1234:ABCD 0E1A 1 0010 ".to_vec();
    want.extend_from_slice(&[
        0x10, 0x81, 0x00, 0x01, 0x05, 0xFF, 0x01, 0x02, 0x88, 0x01, 0x62, 0x02, 0xE7, 0x00, 0xEA,
        0x00,
    ]);
    want.extend_from_slice(b"\r\n");
    assert_eq!(line, want);
}

#[test]
fn every_command_line_ends_with_crlf() {
    let cmds = vec![
        Command::SkReset,
        Command::SkSetRbid { id: b"A".to_vec() },
        Command::SkSetPwd { pwd: b"0123456789AB".to_vec() },
        Command::ActiveScan { duration: 14 },
        Command::SkSreg { sreg: 2, val: 0xFFFF_FFFF },
        Command::SkLl64 { addr64: b"001D129012345678".to_vec() },
        Command::SkJoin { ipaddr: addr() },
        Command::SendCumulativeEnergyUnitRequest { ipaddr: addr() },
        Command::SendEnergyRequest { ipaddr: addr() },
    ];
    for c in cmds.iter() {
        let line = encode_cmd(c);
        assert!(line.len() >= 2);
        assert_eq!(&line[line.len() - 2..], b"\r\n");
        // deterministic: a second rendering is identical
        assert_eq!(line, encode_cmd(c));
    }
}
