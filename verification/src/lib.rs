//! Gateway core for a serial Wi-SUN Route-B smart-meter link: command
//! encoding, incremental frame parsing, the embedded appliance-object
//! codec, and the session / polling state machines.

use vstd::prelude::*;

pub mod command;
pub mod echonet;
pub mod parser;
pub mod poll;
pub mod session;
pub mod types;

verus! {

/// Errors of the session and polling layers.
///
/// `FrameError` is fatal to the background reader; `AckMismatch`,
/// `Timeout` and `ScaleDecode` abort the enclosing sequence;
/// `ChannelClosed` means the reader has exited and a full
/// re-initialization is required.
#[derive(Clone, Copy, Debug, PartialEq, Eq, Structural)]
pub enum SessionError {
    FrameError,
    AckMismatch,
    Timeout,
    ChannelClosed,
    ScaleDecode,
    SendFailed,
    NoCoordinator,
    PanaFailure,
}

} // verus!
