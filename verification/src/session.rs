//! The discovery session's decisions: the probe to broadcast, the receive
//! timeout to configure, and what to do with each receive outcome.
//!
//! The session's socket work stays with the binary: it binds a UDP socket,
//! enables broadcast, sends [`probe_payload`], configures the timeout from
//! [`effective_timeout_secs`], and then hands every receive outcome to
//! [`session_step`] until that returns [`SessionStep::Terminate`].

use crate::parser::payload_record;
use crate::parser::DeviceRecord;
use vstd::prelude::*;

verus! {

/// The single probe byte, ASCII `'D'`.
pub const PROBE_BYTE: u8 = 0x44;

/// Destination port of the probe when none is configured.
pub const DEFAULT_PORT: u16 = 30303;

/// Receive timeout in seconds when none is configured.
pub const DEFAULT_TIMEOUT_SECS: u64 = 1;

/// Size of the receive buffer; a longer datagram is truncated to this.
pub const MAX_DATAGRAM_LEN: usize = 256;

/// Why a receive call returned no datagram.
#[derive(Debug, Clone, Copy, PartialEq, Eq, Structural)]
pub enum RecvFailure {
    /// The read timed out: the designed end of the discovery round.
    TimedOut,
    /// The read would block: likewise the designed end of the round.
    WouldBlock,
    /// Any other I/O failure; the session skips it and keeps listening.
    Other,
}

/// One outcome of a receive call, as the socket loop reports it.
#[derive(Debug, Clone)]
pub enum RecvEvent {
    /// A datagram arrived: its payload bytes and its source address.
    Datagram { payload: Vec<u8>, source: String },
    /// No datagram arrived.
    Failed(RecvFailure),
}

/// What the session does with one receive outcome.
#[derive(Debug, Clone)]
pub enum SessionStep {
    /// Hand one decoded record, paired with its source address, to the output.
    Emit { record: DeviceRecord, source: String },
    /// Drop the datagram or failure silently and keep listening.
    Skip,
    /// End the discovery round normally.
    Terminate,
}

/// True for exactly the receive outcomes that end the round: a timed-out or
/// would-block read.
pub open spec fn terminal_event(event: RecvEvent) -> bool {
    &&& event matches RecvEvent::Failed(f)
    &&& (f is TimedOut || f is WouldBlock)
}

/// The probe datagram: the single byte [`PROBE_BYTE`].
pub fn probe_payload() -> (p: Vec<u8>)
    ensures
        p@ == seq![PROBE_BYTE],
{
    let mut p: Vec<u8> = Vec::new();
    p.push(PROBE_BYTE);
    proof {
        assert(p@ =~= seq![PROBE_BYTE]);
    }
    p
}

/// The receive timeout to configure for a requested number of seconds.  A
/// zero request falls back to the one-second default, so the wait per receive
/// call stays bounded and the round still ends on its own.
pub fn effective_timeout_secs(requested: u64) -> (r: u64)
    ensures
        r == if requested == 0 { DEFAULT_TIMEOUT_SECS as int } else { requested as int },
        r >= 1,
{
    if requested == 0 {
        DEFAULT_TIMEOUT_SECS
    } else {
        requested
    }
}

/// Decide one step of the receive loop.  A timed-out or would-block read, and
/// nothing else, ends the round; a datagram is decoded and emitted with its
/// source address when it parses, and dropped silently when it does not; any
/// other receive failure is dropped silently too.
pub fn session_step(event: RecvEvent) -> (step: SessionStep)
    ensures
        (step is Terminate) <==> terminal_event(event),
        event matches RecvEvent::Datagram { payload, source } ==> (match payload_record(
            payload@,
        ) {
            Some(m) => {
                &&& step matches SessionStep::Emit { record, source: src }
                &&& record@ == m
                &&& src == source
            },
            None => step is Skip,
        }),
        event matches RecvEvent::Failed(f) && f is Other ==> step is Skip,
{
    match event {
        RecvEvent::Datagram { payload, source } => {
            match crate::parser::parse_payload(payload.as_slice()) {
                Some(record) => SessionStep::Emit { record, source },
                None => SessionStep::Skip,
            }
        },
        RecvEvent::Failed(RecvFailure::TimedOut) => SessionStep::Terminate,
        RecvEvent::Failed(RecvFailure::WouldBlock) => SessionStep::Terminate,
        RecvEvent::Failed(RecvFailure::Other) => SessionStep::Skip,
    }
}

} // verus!
