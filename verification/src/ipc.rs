//! The rules of the daemon's local socket protocol: one JSON message per
//! line, at most 1 MiB, and both ends on the same protocol version.

use vstd::prelude::*;

use vstd::utf8::encode_utf8;

verus! {

/// Frames longer than this many bytes are refused.
pub const MAX_FRAME_BYTES: usize = 1048576;

/// The file name of the daemon's socket in its runtime directory.
pub const SOCKET_FILE_NAME: &'static str = "agentdictate.sock";

/// The file name of the lock that keeps a second daemon from starting.
pub const LOCK_FILE_NAME: &'static str = "agentdictate.lock";

/// Why an exchange with the daemon failed.
#[derive(Debug, PartialEq, Eq)]
pub enum IpcError {
    Io(String),
    Json(String),
    ProtocolVersion { received: u16, expected: u16 },
    Disconnected,
    AlreadyRunning { path: String },
}

/// Accepts a peer's message only when it speaks this process's protocol.
pub fn check_version(received: u16, expected: u16) -> (r: Result<(), IpcError>)
    ensures
        received == expected ==> r is Ok,
        received != expected ==> r == Err::<(), IpcError>(IpcError::ProtocolVersion { received, expected }),
{
    if received == expected {
        Ok(())
    } else {
        Err(IpcError::ProtocolVersion { received, expected })
    }
}

/// What one read of a line gave.
#[derive(Clone, Copy, Debug, PartialEq, Eq, Structural)]
pub enum FrameOutcome {
    /// The peer closed the connection before sending anything.
    Closed,
    /// More than 1 MiB, or no newline before the peer stopped.
    Refused,
    /// A whole line to parse.
    Complete,
}

/// Judges a line read with at most `MAX_FRAME_BYTES + 1` bytes taken, of
/// which `bytes_read` arrived.
pub fn frame_outcome(bytes_read: usize, line: &str) -> (outcome: FrameOutcome)
    ensures
        outcome == if bytes_read == 0 {
            FrameOutcome::Closed
        } else if encode_utf8(line@).len() > MAX_FRAME_BYTES || !(line@.len() > 0 && line@.last() == '\n') {
            FrameOutcome::Refused
        } else {
            FrameOutcome::Complete
        },
{
    if bytes_read == 0 {
        return FrameOutcome::Closed;
    }
    let bytes = line.as_bytes();
    if bytes.len() > MAX_FRAME_BYTES {
        return FrameOutcome::Refused;
    }
    let chars = crate::text::chars_of(line);
    if chars.len() > 0 && chars[chars.len() - 1] == '\n' {
        FrameOutcome::Complete
    } else {
        FrameOutcome::Refused
    }
}

} // verus!
