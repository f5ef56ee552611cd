//! Session state machine: the join handshake from reset to the unit
//! query, as a pure transition function from state and received
//! response to new state and next action. The surrounding process
//! owns the clock and the queue; it performs each returned action and
//! hands the next queue item back.
//!
//! The sequence is strictly forward: Reset, credentials, active scan,
//! channel and PAN configuration, address resolution, join, the PANA
//! wait, then the unit query. Any unexpected response in an
//! acknowledgement step fails the whole sequence; there is no partial
//! resume.

use vstd::prelude::*;
use crate::SessionError;
use crate::command::{wf_cmd, Command};
use crate::echonet::{
    spec_scale_exp, view_props, ElPropSpec, EOJ_SMART_METER, EPC_CUMULATIVE_ENERGY_UNIT,
};
use crate::parser::{resp_wf, Response};
use crate::types::{copy_bytes, IpAddr, PanDesc};
use crate::command::wf_credential;

verus! {

/// Where in the join sequence the session stands.
#[derive(Clone, Copy, Debug, PartialEq, Eq, Structural)]
pub enum Phase {
    AwaitResetAck,
    AwaitIdAck,
    AwaitPwdAck,
    AwaitScanAck,
    Scanning,
    AwaitChannelAck,
    AwaitPanAck,
    AwaitLl64,
    AwaitJoinAck,
    AwaitPana,
    AwaitUnit,
    Ready,
    Failed,
}

/// The session being built: its phase and what has been captured so
/// far. A scan result and a resolved address live for one session
/// only.
#[derive(Debug)]
pub struct Session {
    pub phase: Phase,
    pub id: Vec<u8>,
    pub pwd: Vec<u8>,
    pub pan: Option<PanDesc>,
    pub ipaddr: Option<IpAddr>,
    pub unit_exp: Option<i8>,
}

/// What the caller must do next.
#[derive(Debug)]
pub enum SessionStep {
    /// Keep receiving from the queue.
    Wait,
    /// Write this command to the modem, then keep receiving.
    Send(Command),
    /// The session is up: destination address and unit scale exponent.
    Done { ipaddr: IpAddr, unit_exp: i8 },
    /// The whole sequence failed; tear down and start over.
    Fail(SessionError),
}

impl Session {
    /// Captured values are well-formed, and each phase has captured
    /// what it needs.
    pub open spec fn inv(&self) -> bool {
        &&& wf_credential(self.id@)
        &&& wf_credential(self.pwd@)
        &&& (self.pan matches Some(p) ==> p.wf())
        &&& (self.ipaddr matches Some(a) ==> a.wf())
        &&& ((self.phase == Phase::AwaitChannelAck || self.phase == Phase::AwaitPanAck
            || self.phase == Phase::AwaitLl64) ==> self.pan is Some)
        &&& ((self.phase == Phase::AwaitJoinAck || self.phase == Phase::AwaitPana || self.phase
            == Phase::AwaitUnit || self.phase == Phase::Ready) ==> self.ipaddr is Some)
    }
}

/// All fields equal.
pub open spec fn frozen(pre: Session, post: Session) -> bool {
    &&& post.phase == pre.phase
    &&& post.id == pre.id
    &&& post.pwd == pre.pwd
    &&& post.pan == pre.pan
    &&& post.ipaddr == pre.ipaddr
    &&& post.unit_exp == pre.unit_exp
}

/// Only the phase moved.
pub open spec fn to_phase(pre: Session, post: Session, ph: Phase) -> bool {
    &&& post.phase == ph
    &&& post.id == pre.id
    &&& post.pwd == pre.pwd
    &&& post.pan == pre.pan
    &&& post.ipaddr == pre.ipaddr
    &&& post.unit_exp == pre.unit_exp
}

pub open spec fn failed_with(pre: Session, post: Session, out: SessionStep, e: SessionError) -> bool {
    &&& to_phase(pre, post, Phase::Failed)
    &&& out matches SessionStep::Fail(x) && x == e
}

/// First unit-scale payload byte among the properties, if any
/// property is the cumulative-energy-unit with its one-byte payload.
pub open spec fn find_unit_code(props: Seq<ElPropSpec>) -> Option<u8>
    decreases props.len(),
{
    if props.len() == 0 {
        None
    } else if props[0].epc == EPC_CUMULATIVE_ENERGY_UNIT && props[0].edt.len() == 1 {
        Some(props[0].edt[0])
    } else {
        find_unit_code(props.skip(1))
    }
}

/// The transition table of the join sequence: relates the state
/// before, the response consumed, the state after, and the action
/// returned.
pub open spec fn step_spec(pre: Session, r: Response, post: Session, out: SessionStep) -> bool {
    match pre.phase {
        Phase::AwaitResetAck => if r is ResetAck {
            &&& to_phase(pre, post, Phase::AwaitIdAck)
            &&& out matches SessionStep::Send(Command::SkSetRbid { id }) && id@ == pre.id@
        } else {
            failed_with(pre, post, out, SessionError::AckMismatch)
        },
        Phase::AwaitIdAck => if r is IdAck {
            &&& to_phase(pre, post, Phase::AwaitPwdAck)
            &&& out matches SessionStep::Send(Command::SkSetPwd { pwd }) && pwd@ == pre.pwd@
        } else {
            failed_with(pre, post, out, SessionError::AckMismatch)
        },
        Phase::AwaitPwdAck => if r is PwdAck {
            &&& to_phase(pre, post, Phase::AwaitScanAck)
            &&& out matches SessionStep::Send(Command::ActiveScan { duration }) && duration == 6
        } else {
            failed_with(pre, post, out, SessionError::AckMismatch)
        },
        Phase::AwaitScanAck => if r is ScanAck {
            &&& to_phase(pre, post, Phase::Scanning)
            &&& out is Wait
        } else {
            failed_with(pre, post, out, SessionError::AckMismatch)
        },
        Phase::Scanning => match r {
            Response::PanAdvert { desc } => {
                // later scan results overwrite earlier ones
                &&& post.phase == Phase::Scanning
                &&& post.id == pre.id && post.pwd == pre.pwd && post.ipaddr == pre.ipaddr
                    && post.unit_exp == pre.unit_exp
                &&& post.pan matches Some(d) && d@ == desc@
                &&& out is Wait
            },
            Response::Event { num, .. } => if num == 0x22 {
                match pre.pan {
                    Some(p) => {
                        &&& to_phase(pre, post, Phase::AwaitChannelAck)
                        &&& out matches SessionStep::Send(Command::SkSreg { sreg, val }) && sreg
                            == 2 && val == p.channel as u32
                    },
                    None => failed_with(pre, post, out, SessionError::NoCoordinator),
                }
            } else {
                frozen(pre, post) && out is Wait
            },
            _ => frozen(pre, post) && out is Wait,
        },
        Phase::AwaitChannelAck => if r is SregAck {
            &&& to_phase(pre, post, Phase::AwaitPanAck)
            &&& out matches SessionStep::Send(Command::SkSreg { sreg, val }) && sreg == 3 && val
                == pre.pan->Some_0.pan_id as u32
        } else {
            failed_with(pre, post, out, SessionError::AckMismatch)
        },
        Phase::AwaitPanAck => if r is SregAck {
            &&& to_phase(pre, post, Phase::AwaitLl64)
            &&& out matches SessionStep::Send(Command::SkLl64 { addr64 }) && addr64@
                == pre.pan->Some_0.addr@
        } else {
            failed_with(pre, post, out, SessionError::AckMismatch)
        },
        Phase::AwaitLl64 => match r {
            Response::Ll64 { ipaddr } => {
                &&& post.phase == Phase::AwaitJoinAck
                &&& post.id == pre.id && post.pwd == pre.pwd && post.pan == pre.pan
                    && post.unit_exp == pre.unit_exp
                &&& post.ipaddr matches Some(a) && a@ == ipaddr@
                &&& out matches SessionStep::Send(Command::SkJoin { ipaddr: dest }) && dest@
                    == ipaddr@
            },
            _ => failed_with(pre, post, out, SessionError::AckMismatch),
        },
        Phase::AwaitJoinAck => if r is JoinAck {
            to_phase(pre, post, Phase::AwaitPana) && out is Wait
        } else {
            failed_with(pre, post, out, SessionError::AckMismatch)
        },
        Phase::AwaitPana => match r {
            Response::Event { num, .. } => if num == 0x24 {
                failed_with(pre, post, out, SessionError::PanaFailure)
            } else if num == 0x25 {
                &&& to_phase(pre, post, Phase::AwaitUnit)
                &&& out matches SessionStep::Send(
                    Command::SendCumulativeEnergyUnitRequest { ipaddr },
                ) && ipaddr@ == pre.ipaddr->Some_0@
            } else {
                frozen(pre, post) && out is Wait
            },
            _ => frozen(pre, post) && out is Wait,
        },
        Phase::AwaitUnit => match r {
            Response::SendResult { result, .. } => if result == 0 {
                frozen(pre, post) && out is Wait
            } else {
                failed_with(pre, post, out, SessionError::SendFailed)
            },
            Response::RxUdp { frame, .. } => if frame.seoj != EOJ_SMART_METER {
                frozen(pre, post) && out is Wait
            } else {
                match find_unit_code(view_props(frame.props@)) {
                    None => frozen(pre, post) && out is Wait,
                    Some(code) => match spec_scale_exp(code) {
                        Some(e) => {
                            &&& post.phase == Phase::Ready
                            &&& post.id == pre.id && post.pwd == pre.pwd && post.pan == pre.pan
                                && post.ipaddr == pre.ipaddr
                            &&& post.unit_exp == Some(e)
                            &&& out matches SessionStep::Done { ipaddr, unit_exp } && ipaddr@
                                == pre.ipaddr->Some_0@ && unit_exp == e
                        },
                        None => failed_with(pre, post, out, SessionError::ScaleDecode),
                    },
                }
            },
            _ => frozen(pre, post) && out is Wait,
        },
        Phase::Ready => frozen(pre, post) && out is Wait,
        Phase::Failed => frozen(pre, post) && out is Wait,
    }
}

/// Open a fresh session: the caller sends the returned reset command
/// and then feeds every queue item to `on_response`.
pub fn start(id: Vec<u8>, pwd: Vec<u8>) -> (r: (Session, Command))
    requires
        wf_credential(id@),
        wf_credential(pwd@),
    ensures
        r.0.inv(),
        r.0.phase == Phase::AwaitResetAck,
        r.0.id@ == id@,
        r.0.pwd@ == pwd@,
        r.0.pan is None && r.0.ipaddr is None && r.0.unit_exp is None,
        r.1 == Command::SkReset,
        wf_cmd(r.1),
{
    let s = Session { phase: Phase::AwaitResetAck, id, pwd, pan: None, ipaddr: None, unit_exp: None };
    (s, Command::SkReset)
}

fn find_unit_prop(frame_props: &Vec<crate::echonet::ElProperty>) -> (r: Option<u8>)
    ensures
        r == find_unit_code(view_props(frame_props@)),
{
    let n: usize = frame_props.len();
    proof {
        assert(view_props(frame_props@).skip(0) =~= view_props(frame_props@));
    }
    let mut k: usize = 0;
    while k < n
        invariant
            n == frame_props@.len(),
            k <= n,
            find_unit_code(view_props(frame_props@)) == find_unit_code(
                view_props(frame_props@).skip(k as int),
            ),
        decreases n - k,
    {
        let ghost vp = view_props(frame_props@);
        let p = &frame_props[k];
        assert(vp.skip(k as int)[0] == p@);
        if p.epc == EPC_CUMULATIVE_ENERGY_UNIT && p.edt.len() == 1 {
            return Some(p.edt[0]);
        }
        proof {
            assert(vp.skip(k as int).skip(1) =~= vp.skip(k + 1));
        }
        k = k + 1;
    }
    assert(view_props(frame_props@).skip(n as int).len() == 0);
    None
}

impl Session {
    /// Consume one queue item and move the join sequence forward,
    /// exactly as the transition table `step_spec` states. Any
    /// command handed back is well-formed and ready to encode.
    pub fn on_response(&mut self, r: &Response) -> (out: SessionStep)
        requires
            old(self).inv(),
            resp_wf(*r),
        ensures
            final(self).inv(),
            step_spec(*old(self), *r, *final(self), out),
            out matches SessionStep::Send(c) ==> wf_cmd(c),
    {
        match self.phase {
            Phase::AwaitResetAck => match r {
                Response::ResetAck => {
                    self.phase = Phase::AwaitIdAck;
                    SessionStep::Send(Command::SkSetRbid { id: copy_bytes(&self.id) })
                },
                _ => {
                    self.phase = Phase::Failed;
                    SessionStep::Fail(SessionError::AckMismatch)
                },
            },
            Phase::AwaitIdAck => match r {
                Response::IdAck => {
                    self.phase = Phase::AwaitPwdAck;
                    SessionStep::Send(Command::SkSetPwd { pwd: copy_bytes(&self.pwd) })
                },
                _ => {
                    self.phase = Phase::Failed;
                    SessionStep::Fail(SessionError::AckMismatch)
                },
            },
            Phase::AwaitPwdAck => match r {
                Response::PwdAck => {
                    self.phase = Phase::AwaitScanAck;
                    SessionStep::Send(Command::ActiveScan { duration: 6 })
                },
                _ => {
                    self.phase = Phase::Failed;
                    SessionStep::Fail(SessionError::AckMismatch)
                },
            },
            Phase::AwaitScanAck => match r {
                Response::ScanAck => {
                    self.phase = Phase::Scanning;
                    SessionStep::Wait
                },
                _ => {
                    self.phase = Phase::Failed;
                    SessionStep::Fail(SessionError::AckMismatch)
                },
            },
            Phase::Scanning => match r {
                Response::PanAdvert { desc } => {
                    self.pan = Some(desc.duplicate());
                    SessionStep::Wait
                },
                Response::Event { num, .. } => {
                    if *num == 0x22 {
                        match &self.pan {
                            Some(p) => {
                                let val: u32 = p.channel as u32;
                                self.phase = Phase::AwaitChannelAck;
                                SessionStep::Send(Command::SkSreg { sreg: 2, val })
                            },
                            None => {
                                self.phase = Phase::Failed;
                                SessionStep::Fail(SessionError::NoCoordinator)
                            },
                        }
                    } else {
                        SessionStep::Wait
                    }
                },
                _ => SessionStep::Wait,
            },
            Phase::AwaitChannelAck => match r {
                Response::SregAck => {
                    let val: u32 = match &self.pan {
                        Some(p) => p.pan_id as u32,
                        None => 0,
                    };
                    self.phase = Phase::AwaitPanAck;
                    SessionStep::Send(Command::SkSreg { sreg: 3, val })
                },
                _ => {
                    self.phase = Phase::Failed;
                    SessionStep::Fail(SessionError::AckMismatch)
                },
            },
            Phase::AwaitPanAck => match r {
                Response::SregAck => {
                    let addr64: Vec<u8> = match &self.pan {
                        Some(p) => copy_bytes(&p.addr),
                        None => Vec::new(),
                    };
                    self.phase = Phase::AwaitLl64;
                    SessionStep::Send(Command::SkLl64 { addr64 })
                },
                _ => {
                    self.phase = Phase::Failed;
                    SessionStep::Fail(SessionError::AckMismatch)
                },
            },
            Phase::AwaitLl64 => match r {
                Response::Ll64 { ipaddr } => {
                    self.ipaddr = Some(ipaddr.duplicate());
                    self.phase = Phase::AwaitJoinAck;
                    SessionStep::Send(Command::SkJoin { ipaddr: ipaddr.duplicate() })
                },
                _ => {
                    self.phase = Phase::Failed;
                    SessionStep::Fail(SessionError::AckMismatch)
                },
            },
            Phase::AwaitJoinAck => match r {
                Response::JoinAck => {
                    self.phase = Phase::AwaitPana;
                    SessionStep::Wait
                },
                _ => {
                    self.phase = Phase::Failed;
                    SessionStep::Fail(SessionError::AckMismatch)
                },
            },
            Phase::AwaitPana => match r {
                Response::Event { num, .. } => {
                    if *num == 0x24 {
                        self.phase = Phase::Failed;
                        SessionStep::Fail(SessionError::PanaFailure)
                    } else if *num == 0x25 {
                        let dest: IpAddr = match &self.ipaddr {
                            Some(a) => a.duplicate(),
                            None => IpAddr { bytes: Vec::new() },
                        };
                        self.phase = Phase::AwaitUnit;
                        SessionStep::Send(Command::SendCumulativeEnergyUnitRequest { ipaddr: dest })
                    } else {
                        SessionStep::Wait
                    }
                },
                _ => SessionStep::Wait,
            },
            Phase::AwaitUnit => match r {
                Response::SendResult { result, .. } => {
                    if *result == 0 {
                        SessionStep::Wait
                    } else {
                        self.phase = Phase::Failed;
                        SessionStep::Fail(SessionError::SendFailed)
                    }
                },
                Response::RxUdp { frame, .. } => {
                    if frame.seoj != EOJ_SMART_METER {
                        SessionStep::Wait
                    } else {
                        match find_unit_prop(&frame.props) {
                            None => SessionStep::Wait,
                            Some(code) => match crate::echonet::decode_scale(code) {
                                Ok(e) => {
                                    let dest: IpAddr = match &self.ipaddr {
                                        Some(a) => a.duplicate(),
                                        None => IpAddr { bytes: Vec::new() },
                                    };
                                    self.phase = Phase::Ready;
                                    self.unit_exp = Some(e);
                                    SessionStep::Done { ipaddr: dest, unit_exp: e }
                                },
                                Err(_) => {
                                    self.phase = Phase::Failed;
                                    SessionStep::Fail(SessionError::ScaleDecode)
                                },
                            },
                        }
                    }
                },
                _ => SessionStep::Wait,
            },
            Phase::Ready => SessionStep::Wait,
            Phase::Failed => SessionStep::Wait,
        }
    }

    /// The window for the current step closed without its terminating
    /// event: the sequence fails as a timeout.
    pub fn on_deadline(&mut self) -> (out: SessionStep)
        requires
            old(self).inv(),
        ensures
            final(self).inv(),
            to_phase(*old(self), *final(self), Phase::Failed),
            out matches SessionStep::Fail(e) && e == SessionError::Timeout,
    {
        self.phase = Phase::Failed;
        SessionStep::Fail(SessionError::Timeout)
    }
}

} // verus!
