//! Appliance-object codec: the binary application-layer frame that rides
//! inside a received datagram, and the scale-code table for cumulative
//! energy readings.
//!
//! Frame layout: 2-byte header `10 81`, 2-byte transaction id, 3-byte
//! source object code, 3-byte destination object code, 1-byte service
//! code, 1-byte property count, then that many
//! {1-byte property code, 1-byte length, payload} entries.

use vstd::prelude::*;
use vstd::slice::slice_subrange;
use vstd::slice::slice_to_vec;
use crate::SessionError;

verus! {

/// Well-known object code of the low-voltage smart meter.
pub const EOJ_SMART_METER: u32 = 0x028801;
/// Object code this gateway reports as the request source (controller).
pub const EOJ_CONTROLLER: u32 = 0x05FF01;
/// Service code: property read request.
pub const ESV_GET: u8 = 0x62;
/// Property: cumulative-energy unit (scale code), payload length 1.
pub const EPC_CUMULATIVE_ENERGY_UNIT: u8 = 0xE1;
/// Property: instantaneous energy, payload length 4 (big-endian).
pub const EPC_INSTANTANEOUS_ENERGY: u8 = 0xE7;
/// Property: cumulative energy at fixed time, normal direction,
/// payload length 11 (7-byte timestamp, then big-endian u32).
pub const EPC_CUMULATIVE_ENERGY: u8 = 0xEA;

/// One property entry: code plus raw payload. The declared length byte
/// on the wire always equals the payload length.
#[derive(Debug, PartialEq, Eq)]
pub struct ElProperty {
    pub epc: u8,
    pub edt: Vec<u8>,
}

/// Mathematical model of a property entry.
#[verifier::ext_equal]
pub struct ElPropSpec {
    pub epc: u8,
    pub edt: Seq<u8>,
}

impl View for ElProperty {
    type V = ElPropSpec;

    open spec fn view(&self) -> ElPropSpec {
        ElPropSpec { epc: self.epc, edt: self.edt@ }
    }
}

/// A decoded appliance-object frame.
#[derive(Debug, PartialEq, Eq)]
pub struct ElFrame {
    pub tid: u16,
    pub seoj: u32,
    pub deoj: u32,
    pub esv: u8,
    pub props: Vec<ElProperty>,
}

/// Mathematical model of a frame.
#[verifier::ext_equal]
pub struct ElFrameSpec {
    pub tid: u16,
    pub seoj: u32,
    pub deoj: u32,
    pub esv: u8,
    pub props: Seq<ElPropSpec>,
}

pub open spec fn view_props(ps: Seq<ElProperty>) -> Seq<ElPropSpec> {
    ps.map_values(|p: ElProperty| p@)
}

impl View for ElFrame {
    type V = ElFrameSpec;

    open spec fn view(&self) -> ElFrameSpec {
        ElFrameSpec {
            tid: self.tid,
            seoj: self.seoj,
            deoj: self.deoj,
            esv: self.esv,
            props: view_props(self.props@),
        }
    }
}

/// A frame that the wire format can carry: object codes fit in three
/// bytes, the property count fits in the count byte, and each payload
/// length fits in its length byte.
pub open spec fn wf_frame_spec(f: ElFrameSpec) -> bool {
    &&& f.seoj < 0x1000000
    &&& f.deoj < 0x1000000
    &&& f.props.len() <= 255
    &&& forall|i: int| 0 <= i < f.props.len() ==> #[trigger] f.props[i].edt.len() <= 255
}

/// Wire bytes of one property entry.
pub open spec fn enc_prop(p: ElPropSpec) -> Seq<u8> {
    seq![p.epc, p.edt.len() as u8] + p.edt
}

pub open spec fn spec_encode_props(ps: Seq<ElPropSpec>) -> Seq<u8>
    decreases ps.len(),
{
    if ps.len() == 0 {
        Seq::empty()
    } else {
        enc_prop(ps[0]) + spec_encode_props(ps.skip(1))
    }
}

/// The twelve header bytes of a frame.
pub open spec fn spec_frame_header(f: ElFrameSpec) -> Seq<u8> {
    seq![
        0x10u8,
        0x81u8,
        (f.tid / 256) as u8,
        (f.tid % 256) as u8,
        (f.seoj / 0x10000) as u8,
        ((f.seoj / 0x100) % 0x100) as u8,
        (f.seoj % 0x100) as u8,
        (f.deoj / 0x10000) as u8,
        ((f.deoj / 0x100) % 0x100) as u8,
        (f.deoj % 0x100) as u8,
        f.esv,
        f.props.len() as u8,
    ]
}

/// Wire bytes of a whole frame.
pub open spec fn spec_encode_frame(f: ElFrameSpec) -> Seq<u8> {
    spec_frame_header(f) + spec_encode_props(f.props)
}

/// Decode `count` property entries; the bytes must be consumed exactly,
/// and a payload shorter than its declared length is an error (`None`).
pub open spec fn spec_decode_props(s: Seq<u8>, count: u8) -> Option<Seq<ElPropSpec>>
    decreases count,
{
    if count == 0 {
        if s.len() == 0 {
            Some(Seq::empty())
        } else {
            None
        }
    } else if s.len() < 2 {
        None
    } else {
        let epc = s[0];
        let pdc = s[1];
        if s.len() < 2 + pdc {
            None
        } else {
            match spec_decode_props(s.skip(2 + pdc as int), (count - 1) as u8) {
                Some(rest) => Some(
                    seq![ElPropSpec { epc, edt: s.subrange(2, 2 + pdc as int) }] + rest,
                ),
                None => None,
            }
        }
    }
}

pub open spec fn spec_decode_frame(s: Seq<u8>) -> Option<ElFrameSpec> {
    if s.len() < 12 {
        None
    } else if s[0] != 0x10 || s[1] != 0x81 {
        None
    } else {
        let tid = ((s[2] as u16) * 256 + (s[3] as u16)) as u16;
        let seoj = ((s[4] as u32) * 0x10000 + (s[5] as u32) * 0x100 + (s[6] as u32)) as u32;
        let deoj = ((s[7] as u32) * 0x10000 + (s[8] as u32) * 0x100 + (s[9] as u32)) as u32;
        match spec_decode_props(s.skip(12), s[11]) {
            Some(ps) => Some(ElFrameSpec { tid, seoj, deoj, esv: s[10], props: ps }),
            None => None,
        }
    }
}

proof fn lemma_encode_props_push(ps: Seq<ElPropSpec>, p: ElPropSpec)
    ensures
        spec_encode_props(ps.push(p)) == spec_encode_props(ps) + enc_prop(p),
    decreases ps.len(),
{
    if ps.len() == 0 {
        assert(ps.push(p)[0] == p);
        assert(ps.push(p).skip(1) =~= Seq::<ElPropSpec>::empty());
        assert(spec_encode_props(ps.push(p).skip(1)) == Seq::<u8>::empty());
        assert(spec_encode_props(ps.push(p)) == enc_prop(p) + Seq::<u8>::empty());
        assert(enc_prop(p) + Seq::<u8>::empty() =~= spec_encode_props(ps) + enc_prop(p));
    } else {
        assert(ps.push(p)[0] == ps[0]);
        assert(ps.push(p).skip(1) =~= ps.skip(1).push(p));
        lemma_encode_props_push(ps.skip(1), p);
        assert(spec_encode_props(ps.push(p)) == enc_prop(ps[0]) + (spec_encode_props(ps.skip(1))
            + enc_prop(p)));
        assert(enc_prop(ps[0]) + (spec_encode_props(ps.skip(1)) + enc_prop(p)) =~= (enc_prop(
            ps[0],
        ) + spec_encode_props(ps.skip(1))) + enc_prop(p));
    }
}

/// Encode a frame to its wire bytes.
pub fn encode_frame(f: &ElFrame) -> (r: Vec<u8>)
    requires
        wf_frame_spec(f@),
    ensures
        r@ == spec_encode_frame(f@),
{
    let mut out: Vec<u8> = Vec::new();
    out.push(0x10);
    out.push(0x81);
    out.push((f.tid / 256) as u8);
    out.push((f.tid % 256) as u8);
    out.push((f.seoj / 0x10000) as u8);
    out.push(((f.seoj / 0x100) % 0x100) as u8);
    out.push((f.seoj % 0x100) as u8);
    out.push((f.deoj / 0x10000) as u8);
    out.push(((f.deoj / 0x100) % 0x100) as u8);
    out.push((f.deoj % 0x100) as u8);
    out.push(f.esv);
    out.push(f.props.len() as u8);
    proof {
        assert(out@ =~= spec_frame_header(f@));
        assert(view_props(f.props@).take(0) =~= Seq::<ElPropSpec>::empty());
    }
    let n: usize = f.props.len();
    let mut i: usize = 0;
    while i < n
        invariant
            n == f.props@.len(),
            wf_frame_spec(f@),
            i <= n,
            out@ == spec_frame_header(f@) + spec_encode_props(view_props(f.props@).take(i as int)),
        decreases n - i,
    {
        let p: &ElProperty = &f.props[i];
        assert(view_props(f.props@)[i as int] == p@);
        assert(p@.edt.len() <= 255);
        out.push(p.epc);
        out.push(p.edt.len() as u8);
        let ghost base: Seq<u8> = out@;
        let m: usize = p.edt.len();
        let mut j: usize = 0;
        while j < m
            invariant
                m == p.edt@.len(),
                j <= m,
                out@ == base + p.edt@.take(j as int),
            decreases m - j,
        {
            out.push(p.edt[j]);
            assert(p.edt@.take(j + 1) =~= p.edt@.take(j as int).push(p.edt@[j as int]));
            j = j + 1;
        }
        proof {
            assert(p.edt@.take(m as int) =~= p.edt@);
            lemma_encode_props_push(view_props(f.props@).take(i as int), p@);
            assert(view_props(f.props@).take(i + 1) =~= view_props(f.props@).take(
                i as int,
            ).push(p@));
            assert(out@ =~= spec_frame_header(f@) + spec_encode_props(
                view_props(f.props@).take(i + 1),
            ));
        }
        i = i + 1;
    }
    proof {
        assert(view_props(f.props@).take(n as int) =~= view_props(f.props@));
    }
    out
}

/// Decode `count` property entries beginning at `pos`; the entries must
/// use the bytes up to the end exactly.
fn decode_props(b: &[u8], pos: usize, count: u8) -> (r: Option<Vec<ElProperty>>)
    requires
        pos <= b@.len(),
    ensures
        match r {
            Some(ps) => spec_decode_props(b@.skip(pos as int), count) == Some(view_props(ps@)),
            None => spec_decode_props(b@.skip(pos as int), count) is None,
        },
    decreases count,
{
    let n: usize = b.len();
    let ghost s: Seq<u8> = b@.skip(pos as int);
    if count == 0 {
        if pos == n {
            let r: Vec<ElProperty> = Vec::new();
            proof {
                assert(view_props(r@) =~= Seq::<ElPropSpec>::empty());
            }
            Some(r)
        } else {
            None
        }
    } else if n - pos < 2 {
        None
    } else {
        let epc: u8 = b[pos];
        let pdc: u8 = b[pos + 1];
        assert(s[0] == epc && s[1] == pdc);
        if n - pos - 2 < pdc as usize {
            None
        } else {
            let edt: Vec<u8> = slice_to_vec(slice_subrange(b, pos + 2, pos + 2 + pdc as usize));
            proof {
                assert(edt@ =~= s.subrange(2, 2 + pdc as int));
                assert(b@.skip(pos + 2 + pdc as int) =~= s.skip(2 + pdc as int));
            }
            match decode_props(b, pos + 2 + pdc as usize, count - 1) {
                Some(mut rest) => {
                    let prop = ElProperty { epc, edt };
                    rest.insert(0, prop);
                    proof {
                        assert(view_props(rest@) =~~= seq![
                            ElPropSpec { epc, edt: s.subrange(2, 2 + pdc as int) },
                        ] + spec_decode_props(s.skip(2 + pdc as int), (count - 1) as u8)->Some_0);
                    }
                    Some(rest)
                },
                None => None,
            }
        }
    }
}

/// Decode a whole frame from its wire bytes; trailing or missing bytes
/// against the declared property structure are an error.
pub fn decode_frame(b: &[u8]) -> (r: Option<ElFrame>)
    ensures
        match r {
            Some(f) => spec_decode_frame(b@) == Some(f@),
            None => spec_decode_frame(b@) is None,
        },
{
    let n: usize = b.len();
    if n < 12 {
        return None;
    }
    if b[0] != 0x10 || b[1] != 0x81 {
        return None;
    }
    let tid: u16 = (b[2] as u16) * 256 + (b[3] as u16);
    let seoj: u32 = (b[4] as u32) * 0x10000 + (b[5] as u32) * 0x100 + (b[6] as u32);
    let deoj: u32 = (b[7] as u32) * 0x10000 + (b[8] as u32) * 0x100 + (b[9] as u32);
    let esv: u8 = b[10];
    let opc: u8 = b[11];
    match decode_props(b, 12, opc) {
        Some(props) => Some(ElFrame { tid, seoj, deoj, esv, props }),
        None => None,
    }
}

/// Round trip for the property list: decoding what was encoded, with
/// the same count, gives back the same properties.
pub proof fn lemma_props_round_trip(ps: Seq<ElPropSpec>)
    requires
        ps.len() <= 255,
        forall|i: int| 0 <= i < ps.len() ==> #[trigger] ps[i].edt.len() <= 255,
    ensures
        spec_decode_props(spec_encode_props(ps), ps.len() as u8) == Some(ps),
    decreases ps.len(),
{
    if ps.len() == 0 {
        assert(spec_encode_props(ps).len() == 0);
        assert(spec_decode_props(spec_encode_props(ps), 0) == Some(Seq::<ElPropSpec>::empty()));
        assert(Seq::<ElPropSpec>::empty() =~= ps);
    } else {
        let p = ps[0];
        let s = spec_encode_props(ps);
        let tail = spec_encode_props(ps.skip(1));
        assert(s == enc_prop(p) + tail);
        let pdc = p.edt.len() as u8;
        assert(s[0] == p.epc && s[1] == pdc);
        assert(s.len() >= 2 + pdc);
        assert(s.subrange(2, 2 + pdc as int) =~= p.edt);
        assert(s.skip(2 + pdc as int) =~= tail);
        lemma_props_round_trip(ps.skip(1));
        assert(spec_decode_props(tail, (ps.len() - 1) as u8) == Some(ps.skip(1)));
        assert(seq![ElPropSpec { epc: p.epc, edt: s.subrange(2, 2 + pdc as int) }] + ps.skip(1)
            =~~= ps);
    }
}

/// Round trip: encoding a well-formed frame and decoding the result
/// reproduces the frame — in particular the same property codes and
/// payloads, in the same order.
pub proof fn lemma_frame_round_trip(f: ElFrameSpec)
    requires
        wf_frame_spec(f),
    ensures
        spec_decode_frame(spec_encode_frame(f)) == Some(f),
{
    let s = spec_encode_frame(f);
    let h = spec_frame_header(f);
    assert(s.len() >= 12);
    assert(s[0] == 0x10 && s[1] == 0x81);
    assert((s[2] as u16) * 256 + (s[3] as u16) == f.tid) by {
        assert(s[2] == (f.tid / 256) as u8 && s[3] == (f.tid % 256) as u8);
    }
    assert((s[4] as u32) * 0x10000 + (s[5] as u32) * 0x100 + (s[6] as u32) == f.seoj) by {
        assert(s[4] == (f.seoj / 0x10000) as u8 && s[5] == ((f.seoj / 0x100) % 0x100) as u8
            && s[6] == (f.seoj % 0x100) as u8);
    }
    assert((s[7] as u32) * 0x10000 + (s[8] as u32) * 0x100 + (s[9] as u32) == f.deoj) by {
        assert(s[7] == (f.deoj / 0x10000) as u8 && s[8] == ((f.deoj / 0x100) % 0x100) as u8
            && s[9] == (f.deoj % 0x100) as u8);
    }
    assert(s[10] == f.esv && s[11] == f.props.len() as u8);
    assert(s.skip(12) =~= spec_encode_props(f.props));
    lemma_props_round_trip(f.props);
    assert(spec_decode_frame(s) =~~= Some(f));
}

/// The scale-code table: the multiplier applied to raw cumulative
/// readings is ten to this power. Codes 0x0..=0x4 give exponents
/// 0..=-4 and codes 0xA..=0xD give exponents 1..=4; every other byte
/// is undefined.
pub open spec fn spec_scale_exp(b: u8) -> Option<i8> {
    if b == 0x00 {
        Some(0i8)
    } else if b == 0x01 {
        Some(-1i8)
    } else if b == 0x02 {
        Some(-2i8)
    } else if b == 0x03 {
        Some(-3i8)
    } else if b == 0x04 {
        Some(-4i8)
    } else if b == 0x0A {
        Some(1i8)
    } else if b == 0x0B {
        Some(2i8)
    } else if b == 0x0C {
        Some(3i8)
    } else if b == 0x0D {
        Some(4i8)
    } else {
        None
    }
}

/// Decode a unit scale code into the power-of-ten exponent of its
/// multiplier. Succeeds exactly on the ten defined codes.
pub fn decode_scale(b: u8) -> (r: Result<i8, SessionError>)
    ensures
        match r {
            Ok(e) => spec_scale_exp(b) == Some(e),
            Err(err) => spec_scale_exp(b) is None && err == SessionError::ScaleDecode,
        },
{
    match b {
        0x00 => Ok(0),
        0x01 => Ok(-1),
        0x02 => Ok(-2),
        0x03 => Ok(-3),
        0x04 => Ok(-4),
        0x0A => Ok(1),
        0x0B => Ok(2),
        0x0C => Ok(3),
        0x0D => Ok(4),
        _ => Err(SessionError::ScaleDecode),
    }
}

/// Big-endian 32-bit read at a given offset.
pub open spec fn spec_be32(s: Seq<u8>, at: int) -> u32 {
    ((s[at] as u32) * 0x1000000 + (s[at + 1] as u32) * 0x10000 + (s[at + 2] as u32) * 0x100
        + (s[at + 3] as u32)) as u32
}

/// Read a big-endian unsigned 32-bit magnitude from four payload bytes.
pub fn be32_at(b: &Vec<u8>, at: usize) -> (r: u32)
    requires
        at + 4 <= b@.len(),
    ensures
        r == spec_be32(b@, at as int),
{
    let n: usize = b.len();
    (b[at] as u32) * 0x1000000 + (b[at + 1] as u32) * 0x10000 + (b[at + 2] as u32) * 0x100
        + (b[at + 3] as u32)
}

} // verus!
