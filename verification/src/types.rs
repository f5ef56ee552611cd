//! Plain data carried between the parser, the command encoder and the
//! session layer: textual link-local addresses and scan results.

use vstd::prelude::*;

verus! {

/// Uppercase hexadecimal digit as the modem prints and accepts them.
pub open spec fn is_hex_upper(b: u8) -> bool {
    (0x30 <= b <= 0x39) || (0x41 <= b <= 0x46)
}

/// Shape of a textual 128-bit link-local address: eight groups of four
/// uppercase hex digits separated by colons, 39 bytes in all.
pub open spec fn wf_addr_seq(s: Seq<u8>) -> bool {
    &&& s.len() == 39
    &&& forall|i: int|
        0 <= i < 39 ==> (if i % 5 == 4 {
            #[trigger] s[i] == 0x3A
        } else {
            is_hex_upper(s[i])
        })
}

/// Shape of a textual 64-bit extended address: 16 uppercase hex digits.
pub open spec fn wf_addr64_seq(s: Seq<u8>) -> bool {
    &&& s.len() == 16
    &&& forall|i: int| 0 <= i < 16 ==> is_hex_upper(#[trigger] s[i])
}

/// An element-wise copy whose contents are known to equal the
/// original's.
pub fn copy_bytes(v: &Vec<u8>) -> (r: Vec<u8>)
    ensures
        r@ == v@,
{
    let n: usize = v.len();
    let mut out: Vec<u8> = Vec::new();
    let mut j: usize = 0;
    while j < n
        invariant
            n == v@.len(),
            j <= n,
            out@ == v@.take(j as int),
        decreases n - j,
    {
        out.push(v[j]);
        assert(v@.take(j + 1) =~= v@.take(j as int).push(v@[j as int]));
        j = j + 1;
    }
    assert(v@.take(n as int) =~= v@);
    out
}

/// A resolved 128-bit address, held in the textual form the modem
/// prints it in and expects it back in.
#[derive(Debug, PartialEq, Eq)]
pub struct IpAddr {
    pub bytes: Vec<u8>,
}

impl View for IpAddr {
    type V = Seq<u8>;

    open spec fn view(&self) -> Seq<u8> {
        self.bytes@
    }
}

impl IpAddr {
    pub open spec fn wf(&self) -> bool {
        wf_addr_seq(self@)
    }

    /// A copy whose bytes are known to equal this address's.
    pub fn duplicate(&self) -> (r: IpAddr)
        ensures
            r@ == self@,
    {
        IpAddr { bytes: copy_bytes(&self.bytes) }
    }
}

/// A discovered coordinator: channel, PAN id, and its 64-bit extended
/// address as 16 uppercase hex digits.
#[derive(Debug, PartialEq, Eq)]
pub struct PanDesc {
    pub channel: u8,
    pub pan_id: u16,
    pub addr: Vec<u8>,
}

/// Mathematical model of a scan result.
#[verifier::ext_equal]
pub struct PanDescSpec {
    pub channel: u8,
    pub pan_id: u16,
    pub addr: Seq<u8>,
}

impl View for PanDesc {
    type V = PanDescSpec;

    open spec fn view(&self) -> PanDescSpec {
        PanDescSpec { channel: self.channel, pan_id: self.pan_id, addr: self.addr@ }
    }
}

impl PanDesc {
    pub open spec fn wf(&self) -> bool {
        wf_addr64_seq(self.addr@)
    }

    /// A copy whose fields are known to equal this one's.
    pub fn duplicate(&self) -> (r: PanDesc)
        ensures
            r@ == self@,
    {
        PanDesc { channel: self.channel, pan_id: self.pan_id, addr: copy_bytes(&self.addr) }
    }
}

} // verus!
