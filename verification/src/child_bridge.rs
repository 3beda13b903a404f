//! Decisions of the line pumps that carry ACP traffic over a child process's
//! standard streams.
//!
//! Two pumps run per child: one moves lines the agent prints into the
//! client's incoming stream, the other moves lines the client sends into the
//! agent's standard input. Each pump waits for an event, and this module says
//! what it does next: write a newline-terminated frame, or stop, cancelling
//! the whole bridge or not.

use vstd::prelude::*;
use vstd::string::StrSliceExecFns;
use vstd::utf8::encode_utf8;

verus! {

/// The direction a pump moves lines in.
#[derive(Debug, Clone, Copy, PartialEq, Eq, Structural)]
pub enum PumpDirection {
    /// From the agent's standard output to the client.
    FromAgent,
    /// From the client to the agent's standard input.
    ToAgent,
}

/// What a pump observed while it waited.
#[derive(Debug, Clone, PartialEq, Eq)]
pub enum PumpEvent {
    /// The bridge was cancelled.
    Cancelled,
    /// A whole line arrived (without its line terminator).
    Line(String),
    /// The source stream ended.
    EndOfStream,
    /// Reading the source stream failed.
    ReadFailed,
    /// Writing the previous frame to the destination failed.
    WriteFailed,
}

/// What a pump does next.
#[derive(Debug, Clone, PartialEq, Eq)]
pub enum PumpAction {
    /// Write these bytes to the destination (and flush, towards the agent).
    Write(Vec<u8>),
    /// Stop pumping; cancel the whole bridge when `cancel_bridge` holds.
    Stop { cancel_bridge: bool },
}

/// The bytes a line travels as: its UTF-8 encoding followed by `\n`.
pub open spec fn line_frame(line: Seq<char>) -> Seq<u8> {
    encode_utf8(line).push(10u8)
}

/// Whether a pump that stops on `event` cancels the whole bridge: the end or
/// failure of the agent's output means the agent is gone, and failing to
/// write to the agent means it can no longer be reached; a cancelled bridge,
/// the client closing its stream, or the client side refusing a write stop
/// only the pump itself.
pub open spec fn stop_cancels_bridge(direction: PumpDirection, event: PumpEvent) -> bool {
    match event {
        PumpEvent::EndOfStream | PumpEvent::ReadFailed => direction == PumpDirection::FromAgent,
        PumpEvent::WriteFailed => direction == PumpDirection::ToAgent,
        _ => false,
    }
}

/// The next step of a pump: a line is forwarded as one frame; every other
/// event stops the pump, cancelling the bridge as `stop_cancels_bridge` says.
pub fn pump_step(direction: PumpDirection, event: PumpEvent) -> (action: PumpAction)
    ensures
        match event {
            PumpEvent::Line(line) => action matches PumpAction::Write(bytes) && bytes@ == line_frame(line@),
            _ => action matches PumpAction::Stop { cancel_bridge } && cancel_bridge == stop_cancels_bridge(direction, event),
        },
{
    match event {
        PumpEvent::Line(line) => {
            let mut bytes = line.as_str().as_bytes_vec();
            bytes.push(10u8);
            PumpAction::Write(bytes)
        },
        PumpEvent::Cancelled => PumpAction::Stop { cancel_bridge: false },
        PumpEvent::EndOfStream | PumpEvent::ReadFailed => PumpAction::Stop {
            cancel_bridge: match direction {
                PumpDirection::FromAgent => true,
                PumpDirection::ToAgent => false,
            },
        },
        PumpEvent::WriteFailed => PumpAction::Stop {
            cancel_bridge: match direction {
                PumpDirection::FromAgent => false,
                PumpDirection::ToAgent => true,
            },
        },
    }
}

} // verus!
