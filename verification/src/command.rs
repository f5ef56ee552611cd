//! Command encoder: each modem operation rendered as its ASCII command
//! line. Encoding is total on well-formed commands, deterministic (it
//! is a function of the command value alone), and every line ends with
//! the CR LF terminator the modem expects.

use vstd::prelude::*;
use crate::types::{IpAddr, wf_addr64_seq};
use crate::echonet::{
    enc_prop, ElFrame, ElFrameSpec, ElProperty, ElPropSpec, encode_frame, spec_encode_frame,
    spec_encode_props, wf_frame_spec, EOJ_CONTROLLER, EOJ_SMART_METER, ESV_GET,
    EPC_CUMULATIVE_ENERGY_UNIT, EPC_INSTANTANEOUS_ENERGY, EPC_CUMULATIVE_ENERGY,
};

verus! {

/// One modem operation, carrying exactly the parameters its ASCII line
/// needs.
#[derive(Debug, PartialEq, Eq)]
pub enum Command {
    SkReset,
    SkSetRbid { id: Vec<u8> },
    SkSetPwd { pwd: Vec<u8> },
    ActiveScan { duration: u8 },
    SkSreg { sreg: u8, val: u32 },
    SkLl64 { addr64: Vec<u8> },
    SkJoin { ipaddr: IpAddr },
    SendCumulativeEnergyUnitRequest { ipaddr: IpAddr },
    SendEnergyRequest { ipaddr: IpAddr },
}

/// A byte that may stand inside a credential: printable ASCII, so it
/// can never be mistaken for a line terminator.
pub open spec fn is_credential_byte(b: u8) -> bool {
    0x21 <= b <= 0x7E
}

pub open spec fn wf_credential(s: Seq<u8>) -> bool {
    &&& 1 <= s.len() <= 32
    &&& forall|i: int| 0 <= i < s.len() ==> is_credential_byte(#[trigger] s[i])
}

/// The parameters a command carries are of the shapes its line needs.
pub open spec fn wf_cmd(c: Command) -> bool {
    match c {
        Command::SkReset => true,
        Command::SkSetRbid { id } => wf_credential(id@),
        Command::SkSetPwd { pwd } => wf_credential(pwd@),
        Command::ActiveScan { .. } => true,
        Command::SkSreg { .. } => true,
        Command::SkLl64 { addr64 } => wf_addr64_seq(addr64@),
        Command::SkJoin { ipaddr } => ipaddr.wf(),
        Command::SendCumulativeEnergyUnitRequest { ipaddr } => ipaddr.wf(),
        Command::SendEnergyRequest { ipaddr } => ipaddr.wf(),
    }
}

pub open spec fn crlf() -> Seq<u8> {
    seq![13u8, 10u8]
}

/// Uppercase hex digit for one value below sixteen.
pub open spec fn spec_hex_digit(d: int) -> u8 {
    if d < 10 {
        (0x30 + d) as u8
    } else {
        (0x37 + d) as u8
    }
}

/// Minimal uppercase hex rendering, as `{:X}` prints it.
pub open spec fn spec_hex_min(v: int) -> Seq<u8>
    decreases v,
{
    if v < 16 {
        seq![spec_hex_digit(if v < 0 { 0 } else { v })]
    } else {
        spec_hex_min(v / 16) + seq![spec_hex_digit(v % 16)]
    }
}

/// Fixed four-digit uppercase hex rendering.
pub open spec fn spec_hex4(v: u16) -> Seq<u8> {
    seq![
        spec_hex_digit(v as int / 0x1000),
        spec_hex_digit((v as int / 0x100) % 16),
        spec_hex_digit((v as int / 16) % 16),
        spec_hex_digit(v as int % 16),
    ]
}

/// The command word that begins each line; distinct lines for distinct
/// operations begin with their own word.
pub open spec fn cmd_word(c: Command) -> Seq<u8> {
    match c {
        Command::SkReset => seq![0x53u8, 0x4Bu8, 0x52u8, 0x45u8, 0x53u8, 0x45u8, 0x54u8],
        Command::SkSetRbid { .. } => seq![0x53u8, 0x4Bu8, 0x53u8, 0x45u8, 0x54u8, 0x52u8, 0x42u8, 0x49u8, 0x44u8],
        Command::SkSetPwd { .. } => seq![0x53u8, 0x4Bu8, 0x53u8, 0x45u8, 0x54u8, 0x50u8, 0x57u8, 0x44u8],
        Command::ActiveScan { .. } => seq![0x53u8, 0x4Bu8, 0x53u8, 0x43u8, 0x41u8, 0x4Eu8],
        Command::SkSreg { .. } => seq![0x53u8, 0x4Bu8, 0x53u8, 0x52u8, 0x45u8, 0x47u8],
        Command::SkLl64 { .. } => seq![0x53u8, 0x4Bu8, 0x4Cu8, 0x4Cu8, 0x36u8, 0x34u8],
        Command::SkJoin { .. } => seq![0x53u8, 0x4Bu8, 0x4Au8, 0x4Fu8, 0x49u8, 0x4Eu8],
        Command::SendCumulativeEnergyUnitRequest { .. } => seq![
            0x53u8, 0x4Bu8, 0x53u8, 0x45u8, 0x4Eu8, 0x44u8, 0x54u8, 0x4Fu8,
        ],
        Command::SendEnergyRequest { .. } => seq![0x53u8, 0x4Bu8, 0x53u8, 0x45u8, 0x4Eu8, 0x44u8, 0x54u8, 0x4Fu8],
    }
}

/// The fixed request frame asking the meter for its cumulative-energy
/// unit.
pub open spec fn unit_request_spec() -> ElFrameSpec {
    ElFrameSpec {
        tid: 1,
        seoj: EOJ_CONTROLLER,
        deoj: EOJ_SMART_METER,
        esv: ESV_GET,
        props: seq![ElPropSpec { epc: EPC_CUMULATIVE_ENERGY_UNIT, edt: Seq::empty() }],
    }
}

/// The fixed request frame asking for instantaneous and cumulative
/// energy in one read.
pub open spec fn energy_request_spec() -> ElFrameSpec {
    ElFrameSpec {
        tid: 1,
        seoj: EOJ_CONTROLLER,
        deoj: EOJ_SMART_METER,
        esv: ESV_GET,
        props: seq![
            ElPropSpec { epc: EPC_INSTANTANEOUS_ENERGY, edt: Seq::empty() },
            ElPropSpec { epc: EPC_CUMULATIVE_ENERGY, edt: Seq::empty() },
        ],
    }
}

/// Tail of a datagram-send line after "SKSENDTO ": handle 1, the
/// destination address, port 0E1A, security 1, the payload length in
/// four hex digits, then the raw payload.
pub open spec fn sendto_line(ipaddr: Seq<u8>, payload: Seq<u8>) -> Seq<u8> {
    seq![0x53u8, 0x4Bu8, 0x53u8, 0x45u8, 0x4Eu8, 0x44u8, 0x54u8, 0x4Fu8, 0x20u8, 0x31u8, 0x20u8] + ipaddr + seq![
        0x20u8, 0x30u8, 0x45u8, 0x31u8, 0x41u8, 0x20u8, 0x31u8, 0x20u8,
    ] + spec_hex4(payload.len() as u16) + seq![0x20u8] + payload + crlf()
}

/// The ASCII line of each command.
pub open spec fn spec_encode_cmd(c: Command) -> Seq<u8> {
    match c {
        Command::SkReset => cmd_word(c) + crlf(),
        Command::SkSetRbid { id } => cmd_word(c) + seq![0x20u8] + id@ + crlf(),
        Command::SkSetPwd { pwd } => cmd_word(c) + seq![0x20u8] + spec_hex_min(pwd@.len() as int)
            + seq![0x20u8] + pwd@ + crlf(),
        Command::ActiveScan { duration } => cmd_word(c) + seq![
            0x20u8, 0x32u8, 0x20u8, 0x46u8, 0x46u8, 0x46u8, 0x46u8, 0x46u8, 0x46u8, 0x46u8, 0x46u8, 0x20u8,
        ] + spec_hex_min(duration as int) + crlf(),
        Command::SkSreg { sreg, val } => cmd_word(c) + seq![0x20u8, 0x53u8] + spec_hex_min(sreg as int)
            + seq![0x20u8] + spec_hex_min(val as int) + crlf(),
        Command::SkLl64 { addr64 } => cmd_word(c) + seq![0x20u8] + addr64@ + crlf(),
        Command::SkJoin { ipaddr } => cmd_word(c) + seq![0x20u8] + ipaddr@ + crlf(),
        Command::SendCumulativeEnergyUnitRequest { ipaddr } => sendto_line(
            ipaddr@,
            spec_encode_frame(unit_request_spec()),
        ),
        Command::SendEnergyRequest { ipaddr } => sendto_line(
            ipaddr@,
            spec_encode_frame(energy_request_spec()),
        ),
    }
}

fn hex_digit(d: u8) -> (r: u8)
    requires
        d < 16,
    ensures
        r == spec_hex_digit(d as int),
{
    if d < 10 {
        0x30 + d
    } else {
        0x37 + d
    }
}

fn push_hex_min(out: &mut Vec<u8>, v: u32)
    ensures
        final(out)@ == old(out)@ + spec_hex_min(v as int),
    decreases v,
{
    if v < 16 {
        out.push(hex_digit(v as u8));
        assert(out@ =~= old(out)@ + spec_hex_min(v as int));
    } else {
        push_hex_min(out, v / 16);
        out.push(hex_digit((v % 16) as u8));
        assert(out@ =~= old(out)@ + spec_hex_min(v as int));
    }
}

fn push_hex4(out: &mut Vec<u8>, v: u16)
    ensures
        final(out)@ == old(out)@ + spec_hex4(v),
{
    out.push(hex_digit((v / 0x1000) as u8));
    out.push(hex_digit(((v / 0x100) % 16) as u8));
    out.push(hex_digit(((v / 16) % 16) as u8));
    out.push(hex_digit((v % 16) as u8));
    assert(out@ =~= old(out)@ + spec_hex4(v));
}

fn push_bytes(out: &mut Vec<u8>, b: &Vec<u8>)
    ensures
        final(out)@ == old(out)@ + b@,
{
    let n: usize = b.len();
    let mut j: usize = 0;
    while j < n
        invariant
            n == b@.len(),
            j <= n,
            out@ == old(out)@ + b@.take(j as int),
        decreases n - j,
    {
        out.push(b[j]);
        assert(b@.take(j + 1) =~= b@.take(j as int).push(b@[j as int]));
        j = j + 1;
    }
    assert(b@.take(n as int) =~= b@);
}

/// The fixed unit-request frame as a value.
pub fn unit_request_frame() -> (f: ElFrame)
    ensures
        f@ == unit_request_spec(),
        wf_frame_spec(f@),
{
    let props: Vec<ElProperty> = vec![
        ElProperty { epc: EPC_CUMULATIVE_ENERGY_UNIT, edt: Vec::new() },
    ];
    let f = ElFrame { tid: 1, seoj: EOJ_CONTROLLER, deoj: EOJ_SMART_METER, esv: ESV_GET, props };
    proof {
        assert(f@ =~~= unit_request_spec());
    }
    f
}

/// The fixed energy-request frame as a value.
pub fn energy_request_frame() -> (f: ElFrame)
    ensures
        f@ == energy_request_spec(),
        wf_frame_spec(f@),
{
    let props: Vec<ElProperty> = vec![
        ElProperty { epc: EPC_INSTANTANEOUS_ENERGY, edt: Vec::new() },
        ElProperty { epc: EPC_CUMULATIVE_ENERGY, edt: Vec::new() },
    ];
    let f = ElFrame { tid: 1, seoj: EOJ_CONTROLLER, deoj: EOJ_SMART_METER, esv: ESV_GET, props };
    proof {
        assert(f@ =~~= energy_request_spec());
    }
    f
}

proof fn lemma_request_payload_lens()
    ensures
        spec_encode_frame(unit_request_spec()).len() == 14,
        spec_encode_frame(energy_request_spec()).len() == 16,
{
    let ups = unit_request_spec().props;
    assert(spec_encode_props(ups) == enc_prop(ups[0]) + spec_encode_props(ups.skip(1)));
    assert(ups.skip(1).len() == 0);
    assert(spec_encode_props(ups.skip(1)) == Seq::<u8>::empty());
    assert(enc_prop(ups[0]).len() == 2);
    let eps = energy_request_spec().props;
    assert(spec_encode_props(eps) == enc_prop(eps[0]) + spec_encode_props(eps.skip(1)));
    assert(eps.skip(1)[0] == eps[1]);
    assert(spec_encode_props(eps.skip(1)) == enc_prop(eps[1]) + spec_encode_props(
        eps.skip(1).skip(1),
    ));
    assert(eps.skip(1).skip(1).len() == 0);
    assert(spec_encode_props(eps.skip(1).skip(1)) == Seq::<u8>::empty());
    assert(enc_prop(eps[0]).len() == 2 && enc_prop(eps[1]).len() == 2);
}

fn push_sendto(out: &mut Vec<u8>, ipaddr: &IpAddr, payload: &Vec<u8>)
    requires
        ipaddr.wf(),
        payload@.len() <= 0xFFFF,
    ensures
        final(out)@ == old(out)@ + sendto_line(ipaddr@, payload@),
{
    out.push(0x53);
    out.push(0x4B);
    out.push(0x53);
    out.push(0x45);
    out.push(0x4E);
    out.push(0x44);
    out.push(0x54);
    out.push(0x4F);
    out.push(0x20);
    out.push(0x31);
    out.push(0x20);
    push_bytes(out, &ipaddr.bytes);
    out.push(0x20);
    out.push(0x30);
    out.push(0x45);
    out.push(0x31);
    out.push(0x41);
    out.push(0x20);
    out.push(0x31);
    out.push(0x20);
    push_hex4(out, payload.len() as u16);
    out.push(0x20);
    push_bytes(out, payload);
    out.push(13);
    out.push(10);
    assert(out@ =~= old(out)@ + sendto_line(ipaddr@, payload@));
}

/// Render a command as the ASCII line sent to the modem.
pub fn encode_cmd(c: &Command) -> (r: Vec<u8>)
    requires
        wf_cmd(*c),
    ensures
        r@ == spec_encode_cmd(*c),
{
    let mut out: Vec<u8> = Vec::new();
    match c {
        Command::SkReset => {
            out.push(0x53);
            out.push(0x4B);
            out.push(0x52);
            out.push(0x45);
            out.push(0x53);
            out.push(0x45);
            out.push(0x54);
            out.push(13);
            out.push(10);
            assert(out@ =~= spec_encode_cmd(*c));
        },
        Command::SkSetRbid { id } => {
            out.push(0x53);
            out.push(0x4B);
            out.push(0x53);
            out.push(0x45);
            out.push(0x54);
            out.push(0x52);
            out.push(0x42);
            out.push(0x49);
            out.push(0x44);
            out.push(0x20);
            push_bytes(&mut out, id);
            out.push(13);
            out.push(10);
            assert(out@ =~= spec_encode_cmd(*c));
        },
        Command::SkSetPwd { pwd } => {
            out.push(0x53);
            out.push(0x4B);
            out.push(0x53);
            out.push(0x45);
            out.push(0x54);
            out.push(0x50);
            out.push(0x57);
            out.push(0x44);
            out.push(0x20);
            push_hex_min(&mut out, pwd.len() as u32);
            out.push(0x20);
            push_bytes(&mut out, pwd);
            out.push(13);
            out.push(10);
            assert(out@ =~= spec_encode_cmd(*c));
        },
        Command::ActiveScan { duration } => {
            out.push(0x53);
            out.push(0x4B);
            out.push(0x53);
            out.push(0x43);
            out.push(0x41);
            out.push(0x4E);
            out.push(0x20);
            out.push(0x32);
            out.push(0x20);
            out.push(0x46);
            out.push(0x46);
            out.push(0x46);
            out.push(0x46);
            out.push(0x46);
            out.push(0x46);
            out.push(0x46);
            out.push(0x46);
            out.push(0x20);
            push_hex_min(&mut out, *duration as u32);
            out.push(13);
            out.push(10);
            assert(out@ =~= spec_encode_cmd(*c));
        },
        Command::SkSreg { sreg, val } => {
            out.push(0x53);
            out.push(0x4B);
            out.push(0x53);
            out.push(0x52);
            out.push(0x45);
            out.push(0x47);
            out.push(0x20);
            out.push(0x53);
            push_hex_min(&mut out, *sreg as u32);
            out.push(0x20);
            push_hex_min(&mut out, *val);
            out.push(13);
            out.push(10);
            assert(out@ =~= spec_encode_cmd(*c));
        },
        Command::SkLl64 { addr64 } => {
            out.push(0x53);
            out.push(0x4B);
            out.push(0x4C);
            out.push(0x4C);
            out.push(0x36);
            out.push(0x34);
            out.push(0x20);
            push_bytes(&mut out, addr64);
            out.push(13);
            out.push(10);
            assert(out@ =~= spec_encode_cmd(*c));
        },
        Command::SkJoin { ipaddr } => {
            out.push(0x53);
            out.push(0x4B);
            out.push(0x4A);
            out.push(0x4F);
            out.push(0x49);
            out.push(0x4E);
            out.push(0x20);
            push_bytes(&mut out, &ipaddr.bytes);
            out.push(13);
            out.push(10);
            assert(out@ =~= spec_encode_cmd(*c));
        },
        Command::SendCumulativeEnergyUnitRequest { ipaddr } => {
            let f = unit_request_frame();
            let payload = encode_frame(&f);
            proof {
                lemma_request_payload_lens();
            }
            push_sendto(&mut out, ipaddr, &payload);
            assert(out@ =~= spec_encode_cmd(*c));
        },
        Command::SendEnergyRequest { ipaddr } => {
            let f = energy_request_frame();
            let payload = encode_frame(&f);
            proof {
                lemma_request_payload_lens();
            }
            push_sendto(&mut out, ipaddr, &payload);
            assert(out@ =~= spec_encode_cmd(*c));
        },
    }
    out
}

/// Every well-formed command renders deterministically (the rendering
/// is a function of the command value alone), its line begins with the
/// command's own word, and it ends with the CR LF terminator.
pub proof fn lemma_encode_line_shape(c: Command)
    requires
        wf_cmd(c),
    ensures
        spec_encode_cmd(c).len() >= 2,
        spec_encode_cmd(c).skip(spec_encode_cmd(c).len() - 2) == crlf(),
        spec_encode_cmd(c).take(cmd_word(c).len() as int) == cmd_word(c),
{
    let s = spec_encode_cmd(c);
    match c {
        Command::SkReset => {
            assert(s.skip(s.len() - 2) =~= crlf());
            assert(s.take(cmd_word(c).len() as int) =~= cmd_word(c));
        },
        Command::SkSetRbid { id } => {
            assert(s.skip(s.len() - 2) =~= crlf());
            assert(s.take(cmd_word(c).len() as int) =~= cmd_word(c));
        },
        Command::SkSetPwd { pwd } => {
            assert(s.skip(s.len() - 2) =~= crlf());
            assert(s.take(cmd_word(c).len() as int) =~= cmd_word(c));
        },
        Command::ActiveScan { duration } => {
            assert(s.skip(s.len() - 2) =~= crlf());
            assert(s.take(cmd_word(c).len() as int) =~= cmd_word(c));
        },
        Command::SkSreg { sreg, val } => {
            assert(s.skip(s.len() - 2) =~= crlf());
            assert(s.take(cmd_word(c).len() as int) =~= cmd_word(c));
        },
        Command::SkLl64 { addr64 } => {
            assert(s.skip(s.len() - 2) =~= crlf());
            assert(s.take(cmd_word(c).len() as int) =~= cmd_word(c));
        },
        Command::SkJoin { ipaddr } => {
            assert(s.skip(s.len() - 2) =~= crlf());
            assert(s.take(cmd_word(c).len() as int) =~= cmd_word(c));
        },
        Command::SendCumulativeEnergyUnitRequest { ipaddr } => {
            assert(s.skip(s.len() - 2) =~= crlf());
            assert(s.take(cmd_word(c).len() as int) =~= cmd_word(c));
        },
        Command::SendEnergyRequest { ipaddr } => {
            assert(s.skip(s.len() - 2) =~= crlf());
            assert(s.take(cmd_word(c).len() as int) =~= cmd_word(c));
        },
    }
}

} // verus!
