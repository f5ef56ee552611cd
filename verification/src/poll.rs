//! Steady-state polling: once per tick the caller sends the combined
//! energy request and then feeds every queue item here until a
//! terminal outcome. The clock is the caller's: when the tick window
//! closes without a terminal outcome, the tick ends as a timeout.

use vstd::prelude::*;
use crate::echonet::{
    spec_be32, view_props, be32_at, ElPropSpec, EOJ_SMART_METER, EPC_CUMULATIVE_ENERGY,
    EPC_INSTANTANEOUS_ENERGY,
};
use crate::parser::Response;

verus! {

/// What the queue handed back: an item, or closure because the
/// background reader exited.
#[derive(Debug)]
pub enum RecvEvent {
    Item(Response),
    Closed,
}

/// How one queue item moves the tick forward.
#[derive(Debug, PartialEq, Eq)]
pub enum PollStep {
    /// Not a terminal outcome; keep receiving within the window.
    KeepWaiting,
    /// The modem reported a failed transmission: end this tick.
    SendFailed,
    /// The reader died: abort polling entirely and rejoin from reset.
    ChannelClosed,
    /// A meter datagram arrived: apply these readings and end the
    /// tick. The instantaneous magnitude is raw; the cumulative one
    /// is scaled by the session's unit before it is reported.
    Reading { instantaneous: Option<u32>, cumulative: Option<u32> },
}

/// The readings carried by a property list: the last
/// instantaneous-energy property with its 4-byte payload, and the
/// last cumulative-energy property with its 11-byte payload, whose
/// magnitude sits in the four bytes after the 7-byte timestamp.
pub open spec fn readings_of(props: Seq<ElPropSpec>) -> (Option<u32>, Option<u32>)
    decreases props.len(),
{
    if props.len() == 0 {
        (None, None)
    } else {
        let head_i: Option<u32> = if props[0].epc == EPC_INSTANTANEOUS_ENERGY && props[0].edt.len()
            == 4 {
            Some(spec_be32(props[0].edt, 0))
        } else {
            None
        };
        let head_c: Option<u32> = if props[0].epc == EPC_CUMULATIVE_ENERGY && props[0].edt.len()
            == 11 {
            Some(spec_be32(props[0].edt, 7))
        } else {
            None
        };
        let rest = readings_of(props.skip(1));
        (if rest.0 is Some { rest.0 } else { head_i }, if rest.1 is Some { rest.1 } else { head_c })
    }
}

/// The outcome one queue item dictates, per the tick protocol: a
/// zero send-result is progress, a nonzero one fails the tick, a
/// datagram from the meter ends the tick with its readings, queue
/// closure aborts polling, and everything else is waited out.
pub open spec fn poll_step_spec(ev: RecvEvent, out: PollStep) -> bool {
    match ev {
        RecvEvent::Closed => out == PollStep::ChannelClosed,
        RecvEvent::Item(r) => match r {
            Response::SendResult { result, .. } => if result == 0 {
                out == PollStep::KeepWaiting
            } else {
                out == PollStep::SendFailed
            },
            Response::RxUdp { frame, .. } => if frame.seoj == EOJ_SMART_METER {
                out matches PollStep::Reading { instantaneous, cumulative } && (
                instantaneous,
                cumulative,
                ) == readings_of(view_props(frame.props@))
            } else {
                out == PollStep::KeepWaiting
            },
            _ => out == PollStep::KeepWaiting,
        },
    }
}

/// Consume one queue item of the current tick.
pub fn poll_tick_step(ev: &RecvEvent) -> (out: PollStep)
    ensures
        poll_step_spec(*ev, out),
{
    match ev {
        RecvEvent::Closed => PollStep::ChannelClosed,
        RecvEvent::Item(r) => match r {
            Response::SendResult { result, .. } => {
                if *result == 0 {
                    PollStep::KeepWaiting
                } else {
                    PollStep::SendFailed
                }
            },
            Response::RxUdp { frame, .. } => {
                if frame.seoj != EOJ_SMART_METER {
                    PollStep::KeepWaiting
                } else {
                    let ghost vp = view_props(frame.props@);
                    let n: usize = frame.props.len();
                    let mut acc_i: Option<u32> = None;
                    let mut acc_c: Option<u32> = None;
                    proof {
                        assert(vp.skip(0) =~= vp);
                    }
                    let mut k: usize = 0;
                    while k < n
                        invariant
                            n == frame.props@.len(),
                            k <= n,
                            vp == view_props(frame.props@),
                            readings_of(vp) == (
                                {
                                    let rest = readings_of(vp.skip(k as int));
                                    (
                                        if rest.0 is Some {
                                            rest.0
                                        } else {
                                            acc_i
                                        },
                                        if rest.1 is Some {
                                            rest.1
                                        } else {
                                            acc_c
                                        },
                                    )
                                }
                            ),
                        decreases n - k,
                    {
                        let p = &frame.props[k];
                        assert(vp.skip(k as int)[0] == p@);
                        proof {
                            assert(vp.skip(k as int).skip(1) =~= vp.skip(k + 1));
                        }
                        if p.epc == EPC_INSTANTANEOUS_ENERGY && p.edt.len() == 4 {
                            acc_i = Some(be32_at(&p.edt, 0));
                        } else if p.epc == EPC_CUMULATIVE_ENERGY && p.edt.len() == 11 {
                            acc_c = Some(be32_at(&p.edt, 7));
                        }
                        k = k + 1;
                    }
                    assert(readings_of(vp.skip(n as int)) == (None::<u32>, None::<u32>));
                    PollStep::Reading { instantaneous: acc_i, cumulative: acc_c }
                }
            },
            _ => PollStep::KeepWaiting,
        },
    }
}

} // verus!
