//! The source session state machine: frames, validates, and forwards
//! messages from the single active source connection.
//!
//! The machine is a pure step function from a state and a read outcome to
//! the next state and an optional message to broadcast. The caller owns
//! the socket: it asks `bytes_to_read` how many bytes the machine expects,
//! performs the blocking read (under the fixed read timeout), and hands
//! the outcome to `step`. A session that cannot arm its read timeout must
//! not run at all and closes faulted before its first read.

use vstd::prelude::*;

use crate::checksum::spec_forwardable;
use crate::header::HEADER_SIZE;
use crate::header::Header;
use crate::header::spec_from_bytes;
use crate::header::spec_valid;

verus! {

/// The session states. `AwaitingPayload` carries the decoded header and
/// its wire bytes, needed to frame the outgoing message. `GracefulClose`
/// ends a session whose peer closed cleanly; `FaultClose` ends one that
/// timed out, failed to read, or broke the framing protocol.
pub enum SessionState {
    AwaitingHeader,
    AwaitingPayload { header: Header, header_bytes: Vec<u8> },
    GracefulClose,
    FaultClose,
}

/// The outcome of one exact read of `bytes_to_read` bytes.
pub enum SessionEvent {
    /// The read completed in full with these bytes.
    Bytes(Vec<u8>),
    /// The peer closed the stream cleanly before any byte of this read.
    PeerClosed,
    /// The read timeout elapsed: a dead-peer safeguard, not a protocol
    /// violation, but it still faults the session.
    TimedOut,
    /// Any other read failure, including a stream that ended mid-read.
    Failed,
}

/// The state invariant: a payload wait carries the 8 header bytes it was
/// entered with, and its header is their decoding.
pub open spec fn state_wf(s: SessionState) -> bool {
    s matches SessionState::AwaitingPayload { header, header_bytes } ==> header_bytes@.len()
        == HEADER_SIZE && header == spec_from_bytes(header_bytes@)
}

/// The exact number of bytes the machine expects to be read in a state: a
/// full header, then exactly the declared payload length. A closed session
/// reads nothing — in particular, a frame that faults the session on its
/// header consumes no payload bytes from the stream.
pub open spec fn spec_read_len(s: SessionState) -> nat {
    match s {
        SessionState::AwaitingHeader => HEADER_SIZE as nat,
        SessionState::AwaitingPayload { header, .. } => header.length as nat,
        SessionState::GracefulClose => 0,
        SessionState::FaultClose => 0,
    }
}

/// The state a new session starts in, once its read timeout is armed.
pub fn initial_state() -> (r: SessionState)
    ensures
        r is AwaitingHeader,
        state_wf(r),
{
    SessionState::AwaitingHeader
}

impl SessionState {
    /// How many bytes the caller must read next; zero once the session is
    /// over.
    pub fn bytes_to_read(&self) -> (r: usize)
        ensures
            r == spec_read_len(*self),
    {
        match self {
            SessionState::AwaitingHeader => HEADER_SIZE,
            SessionState::AwaitingPayload { header, .. } => header.payload_length(),
            SessionState::GracefulClose => 0,
            SessionState::FaultClose => 0,
        }
    }

    /// Whether the session has ended, gracefully or on a fault.
    pub fn is_terminal(&self) -> (r: bool)
        ensures
            r == (*self is GracefulClose || *self is FaultClose),
    {
        match self {
            SessionState::GracefulClose => true,
            SessionState::FaultClose => true,
            _ => false,
        }
    }
}

/// Advances the session by one read outcome. Returns the next state and,
/// when a frame was validated, the wire-exact message (header bytes then
/// payload bytes) to broadcast to every registered destination.
///
/// Awaiting a header: a clean close ends the session gracefully; a timeout
/// or failure faults it; 8 bytes that decode to a structurally invalid
/// header fault it (a single invalid frame ends the whole session, and no
/// payload is read for it); a valid header moves to the payload wait.
///
/// Awaiting a payload: any failure, including a clean close mid-frame,
/// faults the session. A full payload of a sensitive frame whose checksum
/// fails is dropped — no message, session continues — the one invalid
/// frame that does not end the session, being a content-integrity fault of
/// one message rather than a framing fault. Every other full payload
/// yields the message to broadcast, and the session awaits the next
/// header.
pub fn step(state: SessionState, event: SessionEvent) -> (r: (SessionState, Option<Vec<u8>>))
    requires
        state_wf(state),
        state is AwaitingHeader || state is AwaitingPayload,
        event matches SessionEvent::Bytes(b) ==> b@.len() == spec_read_len(state),
    ensures
        state_wf(r.0),
        state is AwaitingHeader ==> match event {
            SessionEvent::Bytes(b) => {
                &&& !spec_valid(spec_from_bytes(b@)) ==> r.0 is FaultClose && r.1 is None
                &&& spec_valid(spec_from_bytes(b@)) ==> {
                    &&& r.0 matches SessionState::AwaitingPayload { header, header_bytes }
                    &&& header == spec_from_bytes(b@)
                    &&& header_bytes@ == b@
                    &&& r.1 is None
                }
            },
            SessionEvent::PeerClosed => r.0 is GracefulClose && r.1 is None,
            SessionEvent::TimedOut => r.0 is FaultClose && r.1 is None,
            SessionEvent::Failed => r.0 is FaultClose && r.1 is None,
        },
        state matches SessionState::AwaitingPayload { header, header_bytes } ==> match event {
            SessionEvent::Bytes(p) => {
                &&& spec_forwardable(header, p@) ==> {
                    &&& r.0 is AwaitingHeader
                    &&& r.1 matches Some(m)
                    &&& m@ == header_bytes@ + p@
                }
                &&& !spec_forwardable(header, p@) ==> r.0 is AwaitingHeader && r.1 is None
            },
            _ => r.0 is FaultClose && r.1 is None,
        },
{
    match state {
        SessionState::AwaitingHeader => match event {
            SessionEvent::Bytes(b) => {
                let header_words: [u8; 8] = [b[0], b[1], b[2], b[3], b[4], b[5], b[6], b[7]];
                assert(header_words@ =~= b@);
                let header = Header::from_bytes(&header_words);
                if header.is_valid() {
                    (SessionState::AwaitingPayload { header, header_bytes: b }, None)
                } else {
                    (SessionState::FaultClose, None)
                }
            },
            SessionEvent::PeerClosed => (SessionState::GracefulClose, None),
            SessionEvent::TimedOut => (SessionState::FaultClose, None),
            SessionEvent::Failed => (SessionState::FaultClose, None),
        },
        SessionState::AwaitingPayload { header, header_bytes } => match event {
            SessionEvent::Bytes(p) => {
                if header.is_sensitive() && !header.validate_checksum(p.as_slice()) {
                    (SessionState::AwaitingHeader, None)
                } else {
                    let mut message = header_bytes;
                    let mut payload = p;
                    message.append(&mut payload);
                    (SessionState::AwaitingHeader, Some(message))
                }
            },
            SessionEvent::PeerClosed => (SessionState::FaultClose, None),
            SessionEvent::TimedOut => (SessionState::FaultClose, None),
            SessionEvent::Failed => (SessionState::FaultClose, None),
        },
        SessionState::GracefulClose => (SessionState::FaultClose, None),
        SessionState::FaultClose => (SessionState::FaultClose, None),
    }
}

} // verus!
