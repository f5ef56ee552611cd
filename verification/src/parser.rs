//! Incremental frame parser: turns the front of an accumulating byte
//! buffer into zero or one typed response.
//!
//! Three framing shapes are mixed: single ASCII lines terminated by
//! CR LF; the multi-line scan-result block; and a declared-length
//! binary payload introduced by a datagram header line, whose bytes
//! may themselves contain line terminators and are therefore never
//! scanned for one.
//!
//! The parser either finds one complete response and says how many
//! bytes it used, or asks for more bytes (consuming nothing), or
//! reports the stream as structurally bad, which is fatal to the
//! reader.

use vstd::prelude::*;
use vstd::slice::slice_subrange;
use vstd::slice::slice_to_vec;
use crate::types::{IpAddr, PanDesc, PanDescSpec, is_hex_upper, wf_addr64_seq, wf_addr_seq};
use crate::echonet::{decode_frame, spec_decode_frame, ElFrame, ElFrameSpec};

verus! {

/// One decoded unit of device output, as delivered to the foreground
/// in wire-arrival order. `ReadTimeout` is not parsed from bytes: the
/// reader injects it when a bounded read yields nothing, as a liveness
/// signal.
#[derive(Debug, PartialEq, Eq)]
pub enum Response {
    ResetAck,
    IdAck,
    PwdAck,
    ScanAck,
    SregAck,
    JoinAck,
    Ll64 { ipaddr: IpAddr },
    PanAdvert { desc: PanDesc },
    Event { num: u8, sender: IpAddr, param: Option<u8> },
    SendResult { sender: IpAddr, result: u8 },
    RxUdp { sender: IpAddr, frame: ElFrame },
    ReadTimeout,
}

/// Mathematical model of a response.
#[verifier::ext_equal]
pub enum RespSpec {
    ResetAck,
    IdAck,
    PwdAck,
    ScanAck,
    SregAck,
    JoinAck,
    Ll64 { ipaddr: Seq<u8> },
    PanAdvert { desc: PanDescSpec },
    Event { num: u8, sender: Seq<u8>, param: Option<u8> },
    SendResult { sender: Seq<u8>, result: u8 },
    RxUdp { sender: Seq<u8>, frame: ElFrameSpec },
    ReadTimeout,
}

impl View for Response {
    type V = RespSpec;

    open spec fn view(&self) -> RespSpec {
        match self {
            Response::ResetAck => RespSpec::ResetAck,
            Response::IdAck => RespSpec::IdAck,
            Response::PwdAck => RespSpec::PwdAck,
            Response::ScanAck => RespSpec::ScanAck,
            Response::SregAck => RespSpec::SregAck,
            Response::JoinAck => RespSpec::JoinAck,
            Response::Ll64 { ipaddr } => RespSpec::Ll64 { ipaddr: ipaddr@ },
            Response::PanAdvert { desc } => RespSpec::PanAdvert { desc: desc@ },
            Response::Event { num, sender, param } => RespSpec::Event {
                num: *num,
                sender: sender@,
                param: *param,
            },
            Response::SendResult { sender, result } => RespSpec::SendResult {
                sender: sender@,
                result: *result,
            },
            Response::RxUdp { sender, frame } => RespSpec::RxUdp {
                sender: sender@,
                frame: frame@,
            },
            Response::ReadTimeout => RespSpec::ReadTimeout,
        }
    }
}

/// Every address the parser hands out has the textual address shape,
/// and every scan result carries a 16-digit extended address. The
/// parser only produces well-formed responses, and the session layer
/// relies on that.
pub open spec fn resp_wf(r: Response) -> bool {
    match r {
        Response::Ll64 { ipaddr } => ipaddr.wf(),
        Response::PanAdvert { desc } => desc.wf(),
        Response::Event { sender, .. } => wf_addr_seq(sender@),
        Response::SendResult { sender, .. } => wf_addr_seq(sender@),
        Response::RxUdp { sender, .. } => wf_addr_seq(sender@),
        _ => true,
    }
}

/// What one attempt on the buffer yields.
pub enum ParseOutcome {
    Found { resp: Response, used: usize },
    More,
    Bad,
}

/// Mathematical model of one attempt.
pub enum ParseOutcomeSpec {
    Found { resp: RespSpec, used: int },
    More,
    Bad,
}

/// Value of an uppercase hex digit.
pub open spec fn hex_val(b: u8) -> int {
    if b <= 0x39 {
        b - 0x30
    } else {
        b - 0x37
    }
}

pub open spec fn is_hex2(s: Seq<u8>, at: int) -> bool {
    is_hex_upper(s[at]) && is_hex_upper(s[at + 1])
}

/// A run of `n` uppercase hex digits starting at `at`.
pub open spec fn hex_run(s: Seq<u8>, at: int, n: int) -> bool {
    forall|k: int| 0 <= k < n ==> is_hex_upper(#[trigger] s[at + k])
}

pub open spec fn hex2v(s: Seq<u8>, at: int) -> u8 {
    (hex_val(s[at]) * 16 + hex_val(s[at + 1])) as u8
}

pub open spec fn hex4v(s: Seq<u8>, at: int) -> u16 {
    (hex_val(s[at]) * 0x1000 + hex_val(s[at + 1]) * 0x100 + hex_val(s[at + 2]) * 16 + hex_val(
        s[at + 3],
    )) as u16
}

/// A CR LF pair stands wholly inside `s` at position `i`.
pub open spec fn has_crlf_at(s: Seq<u8>, i: int) -> bool {
    0 <= i && i + 1 < s.len() && s[i] == 13 && s[i + 1] == 10
}

/// Position of the first CR LF pair, or -1 when none is complete yet.
pub open spec fn first_crlf(s: Seq<u8>) -> int
    decreases s.len(),
{
    if s.len() < 2 {
        -1
    } else if s[0] == 13 && s[1] == 10 {
        0
    } else {
        let r = first_crlf(s.skip(1));
        if r < 0 {
            -1
        } else {
            r + 1
        }
    }
}

proof fn lemma_first_crlf_found(s: Seq<u8>)
    requires
        first_crlf(s) >= 0,
    ensures
        has_crlf_at(s, first_crlf(s)),
        forall|j: int| 0 <= j < first_crlf(s) ==> !has_crlf_at(s, j),
    decreases s.len(),
{
    if s.len() < 2 {
    } else if s[0] == 13 && s[1] == 10 {
    } else {
        let t = s.skip(1);
        if first_crlf(t) >= 0 {
            lemma_first_crlf_found(t);
            let i = first_crlf(s);
            assert(t[i - 1] == s[i] && t[i] == s[i + 1]);
            assert(forall|j: int| 0 <= j < i ==> !has_crlf_at(s, j)) by {
                assert forall|j: int| 0 <= j < i implies !has_crlf_at(s, j) by {
                    if j == 0 {
                    } else {
                        assert(!has_crlf_at(t, j - 1));
                        assert(t[j - 1] == s[j]);
                        if j + 1 < s.len() {
                            assert(t[j] == s[j + 1]);
                        }
                    }
                }
            }
        }
    }
}

proof fn lemma_first_crlf_is(s: Seq<u8>, i: int)
    requires
        has_crlf_at(s, i),
        forall|j: int| 0 <= j < i ==> !has_crlf_at(s, j),
    ensures
        first_crlf(s) == i,
    decreases s.len(),
{
    if i == 0 {
    } else {
        let t = s.skip(1);
        assert(t[i - 1] == s[i] && t[i] == s[i + 1]);
        assert(has_crlf_at(t, i - 1));
        assert forall|j: int| 0 <= j < i - 1 implies !has_crlf_at(t, j) by {
            assert(!has_crlf_at(s, j + 1));
            assert(t[j] == s[j + 1] && t[j + 1] == s[j + 2]);
        }
        lemma_first_crlf_is(t, i - 1);
        assert(!has_crlf_at(s, 0));
    }
}

/// Find the first complete CR LF pair in the buffer.
fn find_crlf(b: &[u8]) -> (r: Option<usize>)
    ensures
        match r {
            Some(i) => first_crlf(b@) == i && i + 1 < b@.len(),
            None => first_crlf(b@) < 0,
        },
{
    let n: usize = b.len();
    if n < 2 {
        proof {
            if first_crlf(b@) >= 0 {
                lemma_first_crlf_found(b@);
            }
        }
        return None;
    }
    let mut i: usize = 0;
    while i + 1 < n
        invariant
            n == b@.len(),
            i + 1 <= n,
            forall|j: int| 0 <= j < i ==> !has_crlf_at(b@, j),
        decreases n - i,
    {
        if b[i] == 13 && b[i + 1] == 10 {
            proof {
                lemma_first_crlf_is(b@, i as int);
            }
            return Some(i);
        }
        i = i + 1;
    }
    proof {
        assert(forall|j: int| 0 <= j ==> j + 1 < n ==> !has_crlf_at(b@, j));
        if first_crlf(b@) >= 0 {
            lemma_first_crlf_found(b@);
        }
    }
    None
}

// --- the grammar, line shapes first ---

/// Exactly the echo line `SKRESET`.
pub open spec fn line_is_reset(line: Seq<u8>) -> bool {
    line.len() == 7 && line[0] == 0x53 && line[1] == 0x4B && line[2] == 0x52 && line[3] == 0x45
        && line[4] == 0x53 && line[5] == 0x45 && line[6] == 0x54
}

/// Echo line `SKSETRBID <id>`.
pub open spec fn line_is_id(line: Seq<u8>) -> bool {
    line.len() >= 10 && line[0] == 0x53 && line[1] == 0x4B && line[2] == 0x53 && line[3] == 0x45
        && line[4] == 0x54 && line[5] == 0x52 && line[6] == 0x42 && line[7] == 0x49 && line[8]
        == 0x44 && line[9] == 0x20
}

/// Echo line `SKSETPWD <len> <pwd>`.
pub open spec fn line_is_pwd(line: Seq<u8>) -> bool {
    line.len() >= 9 && line[0] == 0x53 && line[1] == 0x4B && line[2] == 0x53 && line[3] == 0x45
        && line[4] == 0x54 && line[5] == 0x50 && line[6] == 0x57 && line[7] == 0x44 && line[8]
        == 0x20
}

/// Echo line `SKSCAN <mode> <mask> <duration>`.
pub open spec fn line_is_scan(line: Seq<u8>) -> bool {
    line.len() >= 7 && line[0] == 0x53 && line[1] == 0x4B && line[2] == 0x53 && line[3] == 0x43
        && line[4] == 0x41 && line[5] == 0x4E && line[6] == 0x20
}

/// Echo line `SKSREG S<reg> <val>`.
pub open spec fn line_is_sreg(line: Seq<u8>) -> bool {
    line.len() >= 7 && line[0] == 0x53 && line[1] == 0x4B && line[2] == 0x53 && line[3] == 0x52
        && line[4] == 0x45 && line[5] == 0x47 && line[6] == 0x20
}

/// Echo line `SKJOIN <ipaddr>`.
pub open spec fn line_is_join(line: Seq<u8>) -> bool {
    line.len() >= 7 && line[0] == 0x53 && line[1] == 0x4B && line[2] == 0x4A && line[3] == 0x4F
        && line[4] == 0x49 && line[5] == 0x4E && line[6] == 0x20
}

/// Echo line `SKLL64 <addr64>`; the resolved address follows on the
/// next line.
pub open spec fn line_is_ll64(line: Seq<u8>) -> bool {
    line.len() >= 7 && line[0] == 0x53 && line[1] == 0x4B && line[2] == 0x4C && line[3] == 0x4C
        && line[4] == 0x36 && line[5] == 0x34 && line[6] == 0x20
}

/// Header line `EVENT <num> <sender>[ <param>]`.
pub open spec fn line_is_event(line: Seq<u8>) -> bool {
    line.len() >= 6 && line[0] == 0x45 && line[1] == 0x56 && line[2] == 0x45 && line[3] == 0x4E
        && line[4] == 0x54 && line[5] == 0x20
}

/// Block header line `EPANDESC`.
pub open spec fn line_is_epandesc(line: Seq<u8>) -> bool {
    line.len() == 8 && line[0] == 0x45 && line[1] == 0x50 && line[2] == 0x41 && line[3] == 0x4E
        && line[4] == 0x44 && line[5] == 0x45 && line[6] == 0x53 && line[7] == 0x43
}

/// The buffer begins with the datagram header word `ERXUDP `.
pub open spec fn starts_erxudp(s: Seq<u8>) -> bool {
    s.len() >= 7 && s[0] == 0x45 && s[1] == 0x52 && s[2] == 0x58 && s[3] == 0x55 && s[4] == 0x44
        && s[5] == 0x50 && s[6] == 0x20
}

/// A short buffer that is still a prefix of `ERXUDP `, so the framing
/// shape cannot be judged yet.
pub open spec fn partial_erxudp(s: Seq<u8>) -> bool {
    s.len() < 7 && (s.len() <= 0 || s[0] == 0x45) && (s.len() <= 1 || s[1] == 0x52) && (s.len()
        <= 2 || s[2] == 0x58) && (s.len() <= 3 || s[3] == 0x55) && (s.len() <= 4 || s[4] == 0x44)
        && (s.len() <= 5 || s[5] == 0x50)
}

/// An `EVENT` line parsed whole. Event code 0x21 is the modem's
/// transmission report and is surfaced as the send-result response;
/// it always carries its result parameter.
pub open spec fn parse_event_line(line: Seq<u8>, used: int) -> ParseOutcomeSpec {
    if line.len() == 48 {
        if is_hex2(line, 6) && line[8] == 0x20 && wf_addr_seq(line.subrange(9, 48)) {
            let num = hex2v(line, 6);
            if num == 0x21 {
                ParseOutcomeSpec::Bad
            } else {
                ParseOutcomeSpec::Found {
                    resp: RespSpec::Event { num, sender: line.subrange(9, 48), param: None },
                    used,
                }
            }
        } else {
            ParseOutcomeSpec::Bad
        }
    } else if line.len() == 51 {
        if is_hex2(line, 6) && line[8] == 0x20 && wf_addr_seq(line.subrange(9, 48)) && line[48]
            == 0x20 && is_hex2(line, 49) {
            let num = hex2v(line, 6);
            let p = hex2v(line, 49);
            if num == 0x21 {
                ParseOutcomeSpec::Found {
                    resp: RespSpec::SendResult { sender: line.subrange(9, 48), result: p },
                    used,
                }
            } else {
                ParseOutcomeSpec::Found {
                    resp: RespSpec::Event { num, sender: line.subrange(9, 48), param: Some(p) },
                    used,
                }
            }
        } else {
            ParseOutcomeSpec::Bad
        }
    } else {
        ParseOutcomeSpec::Bad
    }
}

/// The resolved-address line that follows an `SKLL64` echo.
pub open spec fn parse_ll64_tail(s: Seq<u8>, i: int) -> ParseOutcomeSpec {
    let j = first_crlf(s.skip(i + 2));
    if j < 0 {
        ParseOutcomeSpec::More
    } else if j == 39 && wf_addr_seq(s.subrange(i + 2, i + 2 + 39)) {
        ParseOutcomeSpec::Found {
            resp: RespSpec::Ll64 { ipaddr: s.subrange(i + 2, i + 2 + 39) },
            used: i + 2 + 39 + 2,
        }
    } else {
        ParseOutcomeSpec::Bad
    }
}

/// The fixed-shape six-line block that follows an `EPANDESC` header:
/// Channel, Channel Page, Pan ID, Addr, LQI, PairID, each indented by
/// two spaces and ended by CR LF.
pub open spec fn epandesc_block_ok(s: Seq<u8>, base: int) -> bool {
    // "  Channel:" XX
    &&& s[base + 0] == 0x20 && s[base + 1] == 0x20 && s[base + 2] == 0x43 && s[base + 3] == 0x68
        && s[base + 4] == 0x61 && s[base + 5] == 0x6E && s[base + 6] == 0x6E && s[base + 7] == 0x65
        && s[base + 8] == 0x6C && s[base + 9] == 0x3A
    &&& is_hex2(s, base + 10) && s[base + 12] == 13 && s[base + 13] == 10
    // "  Channel Page:" XX
    &&& s[base + 14] == 0x20 && s[base + 15] == 0x20 && s[base + 16] == 0x43 && s[base + 17]
        == 0x68 && s[base + 18] == 0x61 && s[base + 19] == 0x6E && s[base + 20] == 0x6E && s[base
        + 21] == 0x65 && s[base + 22] == 0x6C && s[base + 23] == 0x20 && s[base + 24] == 0x50
        && s[base + 25] == 0x61 && s[base + 26] == 0x67 && s[base + 27] == 0x65 && s[base + 28]
        == 0x3A
    &&& is_hex2(s, base + 29) && s[base + 31] == 13 && s[base + 32] == 10
    // "  Pan ID:" XXXX
    &&& s[base + 33] == 0x20 && s[base + 34] == 0x20 && s[base + 35] == 0x50 && s[base + 36]
        == 0x61 && s[base + 37] == 0x6E && s[base + 38] == 0x20 && s[base + 39] == 0x49 && s[base
        + 40] == 0x44 && s[base + 41] == 0x3A
    &&& hex_run(s, base + 42, 4) && s[base + 46] == 13 && s[base + 47] == 10
    // "  Addr:" + 16 hex
    &&& s[base + 48] == 0x20 && s[base + 49] == 0x20 && s[base + 50] == 0x41 && s[base + 51]
        == 0x64 && s[base + 52] == 0x64 && s[base + 53] == 0x72 && s[base + 54] == 0x3A
    &&& hex_run(s, base + 55, 16) && s[base + 71] == 13 && s[base + 72] == 10
    // "  LQI:" XX
    &&& s[base + 73] == 0x20 && s[base + 74] == 0x20 && s[base + 75] == 0x4C && s[base + 76]
        == 0x51 && s[base + 77] == 0x49 && s[base + 78] == 0x3A
    &&& is_hex2(s, base + 79) && s[base + 81] == 13 && s[base + 82] == 10
    // "  PairID:" + 8 hex
    &&& s[base + 83] == 0x20 && s[base + 84] == 0x20 && s[base + 85] == 0x50 && s[base + 86]
        == 0x61 && s[base + 87] == 0x69 && s[base + 88] == 0x72 && s[base + 89] == 0x49 && s[base
        + 90] == 0x44 && s[base + 91] == 0x3A
    &&& hex_run(s, base + 92, 8) && s[base + 100] == 13 && s[base + 101] == 10
}

/// The scan-result block after its header line at `i`.
pub open spec fn parse_epandesc_tail(s: Seq<u8>, i: int) -> ParseOutcomeSpec {
    let base = i + 2;
    if s.len() < base + 102 {
        ParseOutcomeSpec::More
    } else if epandesc_block_ok(s, base) {
        ParseOutcomeSpec::Found {
            resp: RespSpec::PanAdvert {
                desc: PanDescSpec {
                    channel: hex2v(s, base + 10),
                    pan_id: hex4v(s, base + 42),
                    addr: s.subrange(base + 55, base + 71),
                },
            },
            used: base + 102,
        }
    } else {
        ParseOutcomeSpec::Bad
    }
}

/// The fixed-offset header of a received datagram: sender and
/// destination addresses, ports, the sender's link-layer address, the
/// security flag, and the payload length in four hex digits. 121
/// bytes up to and including the space before the payload.
pub open spec fn erxudp_header_ok(s: Seq<u8>) -> bool {
    &&& wf_addr_seq(s.subrange(7, 46)) && s[46] == 0x20
    &&& wf_addr_seq(s.subrange(47, 86)) && s[86] == 0x20
    &&& hex_run(s, 87, 4) && s[91] == 0x20
    &&& hex_run(s, 92, 4) && s[96] == 0x20
    &&& hex_run(s, 97, 16) && s[113] == 0x20
    &&& (s[114] == 0x30 || s[114] == 0x31) && s[115] == 0x20
    &&& hex_run(s, 116, 4) && s[120] == 0x20
}

/// A datagram frame: the 121-byte header, exactly the declared number
/// of raw payload bytes (never scanned for terminators), then CR LF.
pub open spec fn parse_erxudp(s: Seq<u8>) -> ParseOutcomeSpec {
    if s.len() < 121 {
        ParseOutcomeSpec::More
    } else if !erxudp_header_ok(s) {
        ParseOutcomeSpec::Bad
    } else {
        let n = hex4v(s, 116) as int;
        if s.len() < 121 + n + 2 {
            ParseOutcomeSpec::More
        } else if s[121 + n] != 13 || s[122 + n] != 10 {
            ParseOutcomeSpec::Bad
        } else {
            match spec_decode_frame(s.subrange(121, 121 + n)) {
                Some(f) => ParseOutcomeSpec::Found {
                    resp: RespSpec::RxUdp { sender: s.subrange(7, 46), frame: f },
                    used: 123 + n,
                },
                None => ParseOutcomeSpec::Bad,
            }
        }
    }
}

/// One attempt at the front of the buffer: one complete response and
/// the count of bytes it used, or a request for more bytes, or a
/// structurally bad stream.
pub open spec fn spec_parse(s: Seq<u8>) -> ParseOutcomeSpec {
    if starts_erxudp(s) {
        parse_erxudp(s)
    } else if partial_erxudp(s) {
        ParseOutcomeSpec::More
    } else {
        let i = first_crlf(s);
        if i < 0 {
            ParseOutcomeSpec::More
        } else {
            let line = s.take(i);
            if line_is_reset(line) {
                ParseOutcomeSpec::Found { resp: RespSpec::ResetAck, used: i + 2 }
            } else if line_is_id(line) {
                ParseOutcomeSpec::Found { resp: RespSpec::IdAck, used: i + 2 }
            } else if line_is_pwd(line) {
                ParseOutcomeSpec::Found { resp: RespSpec::PwdAck, used: i + 2 }
            } else if line_is_scan(line) {
                ParseOutcomeSpec::Found { resp: RespSpec::ScanAck, used: i + 2 }
            } else if line_is_sreg(line) {
                ParseOutcomeSpec::Found { resp: RespSpec::SregAck, used: i + 2 }
            } else if line_is_join(line) {
                ParseOutcomeSpec::Found { resp: RespSpec::JoinAck, used: i + 2 }
            } else if line_is_ll64(line) {
                parse_ll64_tail(s, i)
            } else if line_is_epandesc(line) {
                parse_epandesc_tail(s, i)
            } else if line_is_event(line) {
                parse_event_line(line, i + 2)
            } else {
                ParseOutcomeSpec::Bad
            }
        }
    }
}

// --- laws of the grammar ---

/// A found response used at least its terminator and never more bytes
/// than the buffer holds.
pub proof fn lemma_parse_used_bounds(s: Seq<u8>)
    requires
        spec_parse(s) is Found,
    ensures
        2 <= spec_parse(s)->Found_used <= s.len(),
{
    if starts_erxudp(s) {
    } else {
        let i = first_crlf(s);
        lemma_first_crlf_found(s);
        if line_is_ll64(s.take(i)) {
            let j = first_crlf(s.skip(i + 2));
            lemma_first_crlf_found(s.skip(i + 2));
        }
    }
}

/// A complete parse at the front of a buffer stays exactly the same
/// when more bytes arrive behind it, and a structurally bad front
/// stays bad: the judgment never depends on bytes past the ones it
/// used.
pub proof fn lemma_parse_prefix_stable(s: Seq<u8>, t: Seq<u8>)
    requires
        s.len() <= t.len(),
        s == t.take(s.len() as int),
        !(spec_parse(s) is More),
    ensures
        spec_parse(t) == spec_parse(s),
{
    assert(forall|k: int| 0 <= k < s.len() ==> #[trigger] t[k] == s[k]);
    if starts_erxudp(s) {
        assert(starts_erxudp(t));
        assert(s.len() >= 121);
        assert(t.subrange(7, 46) =~= s.subrange(7, 46));
        assert(t.subrange(47, 86) =~= s.subrange(47, 86));
        assert(erxudp_header_ok(t) == erxudp_header_ok(s)) by {
            assert(forall|k: int| 0 <= k < 4 ==> #[trigger] t[87 + k] == s[87 + k]);
            assert(forall|k: int| 0 <= k < 4 ==> #[trigger] t[92 + k] == s[92 + k]);
            assert(forall|k: int| 0 <= k < 16 ==> #[trigger] t[97 + k] == s[97 + k]);
            assert(forall|k: int| 0 <= k < 4 ==> #[trigger] t[116 + k] == s[116 + k]);
        }
        if erxudp_header_ok(s) {
            let n = hex4v(s, 116) as int;
            assert(hex4v(t, 116) == hex4v(s, 116));
            assert(s.len() >= 121 + n + 2);
            assert(t.subrange(121, 121 + n) =~= s.subrange(121, 121 + n));
        }
    } else if partial_erxudp(s) {
        // excluded: a partial header is judged More
    } else {
        let i = first_crlf(s);
        assert(i >= 0);
        lemma_first_crlf_found(s);
        assert(has_crlf_at(t, i));
        assert(forall|j: int| 0 <= j < i ==> !has_crlf_at(t, j)) by {
            assert forall|j: int| 0 <= j < i implies !has_crlf_at(t, j) by {
                assert(!has_crlf_at(s, j));
                assert(t[j] == s[j] && t[j + 1] == s[j + 1]);
            }
        }
        lemma_first_crlf_is(t, i);
        assert(!starts_erxudp(t) && !partial_erxudp(t)) by {
            if s.len() >= 7 {
            } else {
                assert(s[i] == 13 && i < s.len());
            }
        }
        let line = s.take(i);
        assert(t.take(i) =~= line);
        if line_is_ll64(line) {
            let su = s.skip(i + 2);
            let tu = t.skip(i + 2);
            let j = first_crlf(su);
            assert(j >= 0);
            lemma_first_crlf_found(su);
            assert(forall|k: int| 0 <= k < su.len() ==> #[trigger] tu[k] == su[k]);
            assert(has_crlf_at(tu, j));
            assert(forall|q: int| 0 <= q < j ==> !has_crlf_at(tu, q)) by {
                assert forall|q: int| 0 <= q < j implies !has_crlf_at(tu, q) by {
                    assert(!has_crlf_at(su, q));
                    assert(tu[q] == su[q] && tu[q + 1] == su[q + 1]);
                }
            }
            lemma_first_crlf_is(tu, j);
            if j == 39 {
                assert(t.subrange(i + 2, i + 2 + 39) =~= s.subrange(i + 2, i + 2 + 39));
            }
        } else if line_is_epandesc(line) {
            let base = i + 2;
            assert(s.len() >= base + 102);
            assert(epandesc_block_ok(t, base) == epandesc_block_ok(s, base)) by {
                assert(forall|k: int| 0 <= k < 4 ==> #[trigger] t[base + 42 + k] == s[base + 42
                    + k]);
                assert(forall|k: int| 0 <= k < 16 ==> #[trigger] t[base + 55 + k] == s[base + 55
                    + k]);
                assert(forall|k: int| 0 <= k < 8 ==> #[trigger] t[base + 92 + k] == s[base + 92
                    + k]);
            }
            if epandesc_block_ok(s, base) {
                assert(t.subrange(base + 55, base + 71) =~= s.subrange(base + 55, base + 71));
            }
        }
    }
}

/// The stream of responses obtained by parsing from the front over
/// and over, stopping at the first incomplete or bad front.
pub open spec fn frames_of(s: Seq<u8>) -> Seq<RespSpec>
    decreases s.len(),
{
    match spec_parse(s) {
        ParseOutcomeSpec::Found { resp, used } => {
            if 1 <= used <= s.len() {
                seq![resp] + frames_of(s.skip(used))
            } else {
                seq![resp]
            }
        },
        _ => Seq::empty(),
    }
}

/// How many leading bytes that stream consumed.
pub open spec fn consumed_of(s: Seq<u8>) -> int
    decreases s.len(),
{
    match spec_parse(s) {
        ParseOutcomeSpec::Found { resp, used } => {
            if 1 <= used <= s.len() {
                used + consumed_of(s.skip(used))
            } else {
                0
            }
        },
        _ => 0,
    }
}

pub proof fn lemma_consumed_bounds(s: Seq<u8>)
    ensures
        0 <= consumed_of(s) <= s.len(),
    decreases s.len(),
{
    match spec_parse(s) {
        ParseOutcomeSpec::Found { resp, used } => {
            lemma_parse_used_bounds(s);
            lemma_consumed_bounds(s.skip(used));
        },
        _ => {},
    }
}

/// Feeding a buffer in two pieces emits the same responses as feeding
/// it whole: parsing the first piece emits some frames and leaves a
/// pending remainder, and parsing that remainder extended by the
/// second piece emits exactly the frames that were still to come.
pub proof fn lemma_frames_split(s: Seq<u8>, e: Seq<u8>)
    ensures
        frames_of(s + e) == frames_of(s) + frames_of((s + e).skip(consumed_of(s))),
        consumed_of(s + e) == consumed_of(s) + consumed_of((s + e).skip(consumed_of(s))),
    decreases s.len(),
{
    lemma_consumed_bounds(s);
    match spec_parse(s) {
        ParseOutcomeSpec::Found { resp, used } => {
            lemma_parse_used_bounds(s);
            assert(s == (s + e).take(s.len() as int)) by {
                assert((s + e).take(s.len() as int) =~= s);
            }
            lemma_parse_prefix_stable(s, s + e);
            assert((s + e).skip(used) =~= s.skip(used) + e);
            lemma_frames_split(s.skip(used), e);
            let c2 = consumed_of(s.skip(used));
            lemma_consumed_bounds(s.skip(used));
            assert((s.skip(used) + e).skip(c2) =~= (s + e).skip(used + c2));
            assert(frames_of(s + e) == seq![resp] + (frames_of(s.skip(used)) + frames_of(
                (s + e).skip(used + c2),
            )));
            assert(seq![resp] + (frames_of(s.skip(used)) + frames_of((s + e).skip(used + c2)))
                =~= (seq![resp] + frames_of(s.skip(used))) + frames_of((s + e).skip(used + c2)));
        },
        ParseOutcomeSpec::More => {
            assert(consumed_of(s) == 0);
            assert((s + e).skip(0) =~= s + e);
            assert(frames_of(s) + frames_of(s + e) =~= frames_of(s + e));
        },
        ParseOutcomeSpec::Bad => {
            assert(s == (s + e).take(s.len() as int)) by {
                assert((s + e).take(s.len() as int) =~= s);
            }
            lemma_parse_prefix_stable(s, s + e);
            assert(consumed_of(s) == 0 && consumed_of(s + e) == 0);
            assert((s + e).skip(0) =~= s + e);
            assert(frames_of(s + e) == Seq::<RespSpec>::empty());
            assert(frames_of(s) + frames_of(s + e) =~= frames_of(s + e));
        },
    }
}

/// Chunking independence: cutting the input at any point — hence in
/// particular feeding it one byte at a time, by repeated cuts — emits
/// the same response stream as parsing the whole buffer at once. The
/// pending bytes after the first piece are its unconsumed suffix, and
/// parsing them together with the rest of the input supplies exactly
/// the remaining frames.
pub proof fn lemma_chunking_independent(s: Seq<u8>, cut: int)
    requires
        0 <= cut <= s.len(),
    ensures
        frames_of(s) == frames_of(s.take(cut)) + frames_of(s.skip(consumed_of(s.take(cut)))),
{
    let p = s.take(cut);
    let e = s.skip(cut);
    assert(p + e =~= s);
    lemma_frames_split(p, e);
    lemma_consumed_bounds(p);
    assert((p + e).skip(consumed_of(p)) == s.skip(consumed_of(p)));
}

/// A declared-length binary payload shorter than its declared length
/// is always judged incomplete — never returned as a short response.
pub proof fn lemma_short_binary_payload_incomplete(s: Seq<u8>)
    requires
        starts_erxudp(s),
        s.len() >= 121,
        erxudp_header_ok(s),
        s.len() < 121 + hex4v(s, 116) + 2,
    ensures
        spec_parse(s) == ParseOutcomeSpec::More,
{
}

// --- the executable parser ---

fn is_hex_byte(c: u8) -> (r: bool)
    ensures
        r == is_hex_upper(c),
{
    (0x30 <= c && c <= 0x39) || (0x41 <= c && c <= 0x46)
}

fn hex_digit_val(c: u8) -> (r: u8)
    requires
        is_hex_upper(c),
    ensures
        r as int == hex_val(c),
{
    if c <= 0x39 {
        c - 0x30
    } else {
        c - 0x37
    }
}

fn read_hex2(b: &[u8], at: usize) -> (r: u8)
    requires
        at + 2 <= b@.len(),
        is_hex2(b@, at as int),
    ensures
        r == hex2v(b@, at as int),
{
    let n: usize = b.len();
    hex_digit_val(b[at]) * 16 + hex_digit_val(b[at + 1])
}

fn read_hex4(b: &[u8], at: usize) -> (r: u16)
    requires
        at + 4 <= b@.len(),
        hex_run(b@, at as int, 4),
    ensures
        r == hex4v(b@, at as int),
{
    let n: usize = b.len();
    assert(is_hex_upper(b@[at + 0]) && is_hex_upper(b@[at + 1]) && is_hex_upper(b@[at + 2])
        && is_hex_upper(b@[at + 3]));
    (hex_digit_val(b[at]) as u16) * 0x1000 + (hex_digit_val(b[at + 1]) as u16) * 0x100 + (
    hex_digit_val(b[at + 2]) as u16) * 16 + (hex_digit_val(b[at + 3]) as u16)
}

/// Check 39 bytes at `at` for the textual address shape.
fn check_addr(b: &[u8], at: usize) -> (r: bool)
    requires
        at + 39 <= b@.len(),
    ensures
        r == wf_addr_seq(b@.subrange(at as int, at + 39)),
{
    let ghost s = b@.subrange(at as int, at as int + 39);
    let n: usize = b.len();
    let mut k: usize = 0;
    while k < 39
        invariant
            at + 39 <= n && n == b@.len(),
            k <= 39,
            s == b@.subrange(at as int, at as int + 39),
            forall|j: int|
                0 <= j < k ==> (if j % 5 == 4 {
                    #[trigger] s[j] == 0x3A
                } else {
                    is_hex_upper(s[j])
                }),
        decreases 39 - k,
    {
        let c = b[at + k];
        assert(s[k as int] == c);
        if k % 5 == 4 {
            if c != 0x3A {
                assert(!wf_addr_seq(s));
                return false;
            }
        } else {
            if !is_hex_byte(c) {
                assert(!wf_addr_seq(s));
                return false;
            }
        }
        k = k + 1;
    }
    true
}

/// Check a run of `m` uppercase hex digits at `at`.
fn check_hex_run(b: &[u8], at: usize, m: usize) -> (r: bool)
    requires
        at + m <= b@.len(),
    ensures
        r == hex_run(b@, at as int, m as int),
{
    let n: usize = b.len();
    let mut k: usize = 0;
    while k < m
        invariant
            at + m <= n && n == b@.len(),
            k <= m,
            forall|j: int| 0 <= j < k ==> is_hex_upper(#[trigger] b@[at + j]),
        decreases m - k,
    {
        if !is_hex_byte(b[at + k]) {
            assert(!hex_run(b@, at as int, m as int));
            return false;
        }
        k = k + 1;
    }
    true
}

fn addr_at(b: &[u8], at: usize) -> (r: IpAddr)
    requires
        at + 39 <= b@.len(),
    ensures
        r@ == b@.subrange(at as int, at + 39),
{
    let n: usize = b.len();
    IpAddr { bytes: slice_to_vec(slice_subrange(b, at, at + 39)) }
}

/// The six fixed-shape lines of a scan-result block.
fn check_epandesc(b: &[u8], base: usize) -> (r: bool)
    requires
        base + 102 <= b@.len(),
    ensures
        r == epandesc_block_ok(b@, base as int),
{
    let n: usize = b.len();
    b[base] == 0x20 && b[base + 1] == 0x20 && b[base + 2] == 0x43 && b[base + 3] == 0x68 && b[base
        + 4] == 0x61 && b[base + 5] == 0x6E && b[base + 6] == 0x6E && b[base + 7] == 0x65 && b[base
        + 8] == 0x6C && b[base + 9] == 0x3A && is_hex_byte(b[base + 10]) && is_hex_byte(
        b[base + 11],
    ) && b[base + 12] == 13 && b[base + 13] == 10 && b[base + 14] == 0x20 && b[base + 15] == 0x20
        && b[base + 16] == 0x43 && b[base + 17] == 0x68 && b[base + 18] == 0x61 && b[base + 19]
        == 0x6E && b[base + 20] == 0x6E && b[base + 21] == 0x65 && b[base + 22] == 0x6C && b[base
        + 23] == 0x20 && b[base + 24] == 0x50 && b[base + 25] == 0x61 && b[base + 26] == 0x67
        && b[base + 27] == 0x65 && b[base + 28] == 0x3A && is_hex_byte(b[base + 29]) && is_hex_byte(
        b[base + 30],
    ) && b[base + 31] == 13 && b[base + 32] == 10 && b[base + 33] == 0x20 && b[base + 34] == 0x20
        && b[base + 35] == 0x50 && b[base + 36] == 0x61 && b[base + 37] == 0x6E && b[base + 38]
        == 0x20 && b[base + 39] == 0x49 && b[base + 40] == 0x44 && b[base + 41] == 0x3A
        && check_hex_run(b, base + 42, 4) && b[base + 46] == 13 && b[base + 47] == 10 && b[base
        + 48] == 0x20 && b[base + 49] == 0x20 && b[base + 50] == 0x41 && b[base + 51] == 0x64
        && b[base + 52] == 0x64 && b[base + 53] == 0x72 && b[base + 54] == 0x3A && check_hex_run(
        b,
        base + 55,
        16,
    ) && b[base + 71] == 13 && b[base + 72] == 10 && b[base + 73] == 0x20 && b[base + 74] == 0x20
        && b[base + 75] == 0x4C && b[base + 76] == 0x51 && b[base + 77] == 0x49 && b[base + 78]
        == 0x3A && is_hex_byte(b[base + 79]) && is_hex_byte(b[base + 80]) && b[base + 81] == 13
        && b[base + 82] == 10 && b[base + 83] == 0x20 && b[base + 84] == 0x20 && b[base + 85]
        == 0x50 && b[base + 86] == 0x61 && b[base + 87] == 0x69 && b[base + 88] == 0x72 && b[base
        + 89] == 0x49 && b[base + 90] == 0x44 && b[base + 91] == 0x3A && check_hex_run(
        b,
        base + 92,
        8,
    ) && b[base + 100] == 13 && b[base + 101] == 10
}

fn parse_erxudp_exec(b: &[u8]) -> (r: ParseOutcome)
    requires
        starts_erxudp(b@),
    ensures
        match r {
            ParseOutcome::Found { resp, used } => parse_erxudp(b@) == (ParseOutcomeSpec::Found {
                resp: resp@,
                used: used as int,
            }) && resp_wf(resp),
            ParseOutcome::More => parse_erxudp(b@) == ParseOutcomeSpec::More,
            ParseOutcome::Bad => parse_erxudp(b@) == ParseOutcomeSpec::Bad,
        },
{
    let n: usize = b.len();
    if n < 121 {
        return ParseOutcome::More;
    }
    let ok = check_addr(b, 7) && b[46] == 0x20 && check_addr(b, 47) && b[86] == 0x20
        && check_hex_run(b, 87, 4) && b[91] == 0x20 && check_hex_run(b, 92, 4) && b[96] == 0x20
        && check_hex_run(b, 97, 16) && b[113] == 0x20 && (b[114] == 0x30 || b[114] == 0x31)
        && b[115] == 0x20 && check_hex_run(b, 116, 4) && b[120] == 0x20;
    if !ok {
        assert(!erxudp_header_ok(b@));
        return ParseOutcome::Bad;
    }
    assert(erxudp_header_ok(b@));
    let plen: usize = read_hex4(b, 116) as usize;
    if n < 121 + plen + 2 {
        return ParseOutcome::More;
    }
    if b[121 + plen] != 13 || b[122 + plen] != 10 {
        return ParseOutcome::Bad;
    }
    match decode_frame(slice_subrange(b, 121, 121 + plen)) {
        Some(frame) => {
            let resp = Response::RxUdp { sender: addr_at(b, 7), frame };
            assert(resp@ =~~= (RespSpec::RxUdp {
                sender: b@.subrange(7, 46),
                frame: spec_decode_frame(b@.subrange(121, 121 + plen as int))->Some_0,
            }));
            ParseOutcome::Found { resp, used: 123 + plen }
        },
        None => ParseOutcome::Bad,
    }
}

/// One attempt at the front of the buffer. Finding a response reports
/// how many leading bytes it used; the caller retains the rest. On
/// `More` nothing is consumed and the same bytes must be offered
/// again, extended. On `Bad` the stream is structurally invalid and
/// the reader must stop.
pub fn parse(b: &[u8]) -> (r: ParseOutcome)
    ensures
        match r {
            ParseOutcome::Found { resp, used } => spec_parse(b@) == (ParseOutcomeSpec::Found {
                resp: resp@,
                used: used as int,
            }) && used <= b@.len() && resp_wf(resp),
            ParseOutcome::More => spec_parse(b@) == ParseOutcomeSpec::More,
            ParseOutcome::Bad => spec_parse(b@) == ParseOutcomeSpec::Bad,
        },
{
    let n: usize = b.len();
    if n >= 7 && b[0] == 0x45 && b[1] == 0x52 && b[2] == 0x58 && b[3] == 0x55 && b[4] == 0x44
        && b[5] == 0x50 && b[6] == 0x20 {
        assert(starts_erxudp(b@));
        let r = parse_erxudp_exec(b);
        proof {
            if r is Found {
                assert(spec_parse(b@) == parse_erxudp(b@));
            }
        }
        return r;
    }
    if n < 7 && (n < 1 || b[0] == 0x45) && (n < 2 || b[1] == 0x52) && (n < 3 || b[2] == 0x58) && (n
        < 4 || b[3] == 0x55) && (n < 5 || b[4] == 0x44) && (n < 6 || b[5] == 0x50) {
        assert(partial_erxudp(b@));
        return ParseOutcome::More;
    }
    assert(!starts_erxudp(b@) && !partial_erxudp(b@));
    let i = match find_crlf(b) {
        None => {
            return ParseOutcome::More;
        },
        Some(i) => i,
    };
    let ghost line = b@.take(i as int);
    assert(forall|k: int| 0 <= k < i ==> line[k] == b@[k]);
    if i == 7 && b[0] == 0x53 && b[1] == 0x4B && b[2] == 0x52 && b[3] == 0x45 && b[4] == 0x53
        && b[5] == 0x45 && b[6] == 0x54 {
        return ParseOutcome::Found { resp: Response::ResetAck, used: i + 2 };
    }
    assert(!line_is_reset(line));
    if i >= 10 && b[0] == 0x53 && b[1] == 0x4B && b[2] == 0x53 && b[3] == 0x45 && b[4] == 0x54
        && b[5] == 0x52 && b[6] == 0x42 && b[7] == 0x49 && b[8] == 0x44 && b[9] == 0x20 {
        return ParseOutcome::Found { resp: Response::IdAck, used: i + 2 };
    }
    assert(!line_is_id(line));
    if i >= 9 && b[0] == 0x53 && b[1] == 0x4B && b[2] == 0x53 && b[3] == 0x45 && b[4] == 0x54
        && b[5] == 0x50 && b[6] == 0x57 && b[7] == 0x44 && b[8] == 0x20 {
        return ParseOutcome::Found { resp: Response::PwdAck, used: i + 2 };
    }
    assert(!line_is_pwd(line));
    if i >= 7 && b[0] == 0x53 && b[1] == 0x4B && b[2] == 0x53 && b[3] == 0x43 && b[4] == 0x41
        && b[5] == 0x4E && b[6] == 0x20 {
        return ParseOutcome::Found { resp: Response::ScanAck, used: i + 2 };
    }
    assert(!line_is_scan(line));
    if i >= 7 && b[0] == 0x53 && b[1] == 0x4B && b[2] == 0x53 && b[3] == 0x52 && b[4] == 0x45
        && b[5] == 0x47 && b[6] == 0x20 {
        return ParseOutcome::Found { resp: Response::SregAck, used: i + 2 };
    }
    assert(!line_is_sreg(line));
    if i >= 7 && b[0] == 0x53 && b[1] == 0x4B && b[2] == 0x4A && b[3] == 0x4F && b[4] == 0x49
        && b[5] == 0x4E && b[6] == 0x20 {
        return ParseOutcome::Found { resp: Response::JoinAck, used: i + 2 };
    }
    assert(!line_is_join(line));
    if i >= 7 && b[0] == 0x53 && b[1] == 0x4B && b[2] == 0x4C && b[3] == 0x4C && b[4] == 0x36
        && b[5] == 0x34 && b[6] == 0x20 {
        // the resolved address follows on the next line
        let tail = slice_subrange(b, i + 2, n);
        assert(tail@ =~= b@.skip(i + 2));
        match find_crlf(tail) {
            None => {
                return ParseOutcome::More;
            },
            Some(j) => {
                if j == 39 && check_addr(b, i + 2) {
                    let resp = Response::Ll64 { ipaddr: addr_at(b, i + 2) };
                    assert(resp@ =~~= (RespSpec::Ll64 {
                        ipaddr: b@.subrange(i + 2, i + 2 + 39),
                    }));
                    return ParseOutcome::Found { resp, used: i + 43 };
                } else {
                    return ParseOutcome::Bad;
                }
            },
        }
    }
    assert(!line_is_ll64(line));
    if i == 8 && b[0] == 0x45 && b[1] == 0x50 && b[2] == 0x41 && b[3] == 0x4E && b[4] == 0x44
        && b[5] == 0x45 && b[6] == 0x53 && b[7] == 0x43 {
        let base: usize = i + 2;
        if n < base + 102 {
            return ParseOutcome::More;
        }
        if !check_epandesc(b, base) {
            return ParseOutcome::Bad;
        }
        assert(is_hex2(b@, base + 10) && hex_run(b@, base + 42, 4));
        let desc = PanDesc {
            channel: read_hex2(b, base + 10),
            pan_id: read_hex4(b, base + 42),
            addr: slice_to_vec(slice_subrange(b, base + 55, base + 71)),
        };
        proof {
            assert(hex_run(b@, base + 55, 16));
            assert forall|k: int|
                0 <= k < 16 implies is_hex_upper(#[trigger] b@.subrange(base + 55, base + 71)[k]) by {
                assert(b@.subrange(base + 55, base + 71)[k] == b@[base + 55 + k]);
                assert(is_hex_upper(b@[base + 55 + k]));
            }
            assert(wf_addr64_seq(b@.subrange(base + 55, base + 71)));
        }
        let resp = Response::PanAdvert { desc };
        assert(resp@ =~~= (RespSpec::PanAdvert {
            desc: PanDescSpec {
                channel: hex2v(b@, base + 10),
                pan_id: hex4v(b@, base + 42),
                addr: b@.subrange(base + 55, base + 71),
            },
        }));
        return ParseOutcome::Found { resp, used: base + 102 };
    }
    assert(!line_is_epandesc(line));
    if i >= 6 && b[0] == 0x45 && b[1] == 0x56 && b[2] == 0x45 && b[3] == 0x4E && b[4] == 0x54
        && b[5] == 0x20 {
        if i == 48 {
            if is_hex_byte(b[6]) && is_hex_byte(b[7]) && b[8] == 0x20 && check_addr(b, 9) {
                assert(line.subrange(9, 48) =~= b@.subrange(9, 48));
                assert(is_hex2(line, 6));
                let num = read_hex2(b, 6);
                assert(num == hex2v(line, 6));
                if num == 0x21 {
                    return ParseOutcome::Bad;
                }
                let resp = Response::Event { num, sender: addr_at(b, 9), param: None };
                assert(resp@ =~~= (RespSpec::Event {
                    num: hex2v(line, 6),
                    sender: line.subrange(9, 48),
                    param: None,
                }));
                return ParseOutcome::Found { resp, used: i + 2 };
            } else {
                assert(!(is_hex2(line, 6) && line[8] == 0x20 && wf_addr_seq(
                    line.subrange(9, 48),
                ))) by {
                    assert(line.subrange(9, 48) =~= b@.subrange(9, 48));
                }
                return ParseOutcome::Bad;
            }
        } else if i == 51 {
            if is_hex_byte(b[6]) && is_hex_byte(b[7]) && b[8] == 0x20 && check_addr(b, 9) && b[48]
                == 0x20 && is_hex_byte(b[49]) && is_hex_byte(b[50]) {
                assert(line.subrange(9, 48) =~= b@.subrange(9, 48));
                assert(is_hex2(line, 6) && is_hex2(line, 49));
                let num = read_hex2(b, 6);
                let p = read_hex2(b, 49);
                assert(num == hex2v(line, 6) && p == hex2v(line, 49));
                if num == 0x21 {
                    let resp = Response::SendResult { sender: addr_at(b, 9), result: p };
                    assert(resp@ =~~= (RespSpec::SendResult {
                        sender: line.subrange(9, 48),
                        result: hex2v(line, 49),
                    }));
                    return ParseOutcome::Found { resp, used: i + 2 };
                } else {
                    let resp = Response::Event { num, sender: addr_at(b, 9), param: Some(p) };
                    assert(resp@ =~~= (RespSpec::Event {
                        num: hex2v(line, 6),
                        sender: line.subrange(9, 48),
                        param: Some(hex2v(line, 49)),
                    }));
                    return ParseOutcome::Found { resp, used: i + 2 };
                }
            } else {
                assert(!(is_hex2(line, 6) && line[8] == 0x20 && wf_addr_seq(line.subrange(9, 48))
                    && line[48] == 0x20 && is_hex2(line, 49))) by {
                    assert(line.subrange(9, 48) =~= b@.subrange(9, 48));
                }
                return ParseOutcome::Bad;
            }
        } else {
            return ParseOutcome::Bad;
        }
    }
    assert(!line_is_event(line));
    ParseOutcome::Bad
}

} // verus!
