//! Connection lifecycle vocabulary shared by the per-exchange
//! supervisors: connection states, the events a supervisor records, the
//! actions it asks the I/O layer to perform, and the decision taken when
//! a connection fails.
//!
//! A supervisor is a pure state machine.  The process around it opens
//! sockets, runs the blocking read loops and sleeps through backoff
//! delays; every decision — when to open, what to send, whether to
//! retry — is made here and handed back as [`Action`] values.

use vstd::prelude::*;
use crate::policy::{ReconnectPolicy, spec_backoff_ms};

verus! {

/// Typed failure of a connection attempt.
#[derive(Clone, Copy, Debug, PartialEq, Eq, Structural)]
pub enum ConnectError {
    DnsFailure,
    TlsFailure,
    Refused,
    Timeout,
}

/// Why a connection's read loop ended.  Exactly one terminal event is
/// delivered per socket the supervisor was told about.
#[derive(Clone, Copy, Debug, PartialEq, Eq, Structural)]
pub enum TerminateReason {
    /// The peer closed the connection.
    PeerClose,
    /// The transport failed mid-read.
    TransportError,
    /// The read loop observed the cancellation signal.
    Cancelled,
}

/// Why a connection was marked failed.
#[derive(Clone, Copy, Debug, PartialEq, Eq, Structural)]
pub enum FailReason {
    /// The reconnect policy gave up.
    ReconnectExhausted,
}

/// Lifecycle state of one tracked connection, owned exclusively by its
/// supervisor.
#[derive(Clone, Copy, Debug, PartialEq, Eq, Structural)]
pub enum ConnectionState {
    Idle,
    Connecting,
    Streaming,
    Reconnecting { attempt: u32 },
    Closed,
    Failed { reason: FailReason },
}

impl ConnectionState {
    /// A connection that is open or trying to open: its supervisor
    /// still owes it work.
    pub open spec fn is_active(&self) -> bool {
        *self is Connecting || *self is Streaming || *self is Reconnecting
    }
}

/// I/O work a supervisor asks the surrounding process to perform.
#[derive(Clone, Debug, PartialEq, Eq)]
pub enum Action {
    /// Open a socket to `endpoint` for connection `conn`, then report
    /// the result through `on_opened` or `on_open_failed`.
    OpenSocket { conn: u64, endpoint: Vec<u8> },
    /// Send a text control message on connection `conn`.
    SendText { conn: u64, payload: Vec<u8> },
    /// Close connection `conn`'s socket (best effort).
    CloseSocket { conn: u64 },
    /// Join connection `conn`'s reader task.
    JoinReader { conn: u64 },
    /// Wait `delay_ms`, then reopen connection `conn` at `endpoint` and
    /// report the result as for `OpenSocket`.
    Reopen { conn: u64, delay_ms: u64, endpoint: Vec<u8> },
}

/// Discrete, classifiable events a supervisor records about its
/// connections.
#[derive(Clone, Copy, Debug, PartialEq, Eq, Structural)]
pub enum SupEvent {
    /// A socket for this connection was opened and its reader started.
    Connected { conn: u64 },
    /// Opening a socket for this connection failed with a typed error.
    OpenFailed { conn: u64, err: ConnectError },
    /// The connection's reader delivered its terminal event.
    Disconnected { conn: u64 },
    /// The supervisor scheduled reconnection attempt `attempt`.
    ReconnectAttempt { conn: u64, attempt: u32 },
    /// The reconnect policy was exhausted; the connection failed.
    GaveUp { conn: u64 },
    /// A frame could not be decoded and was dropped.
    DecodeFailure { conn: u64 },
}

/// Why a subscription request was refused.
#[derive(Clone, Copy, Debug, PartialEq, Eq, Structural)]
pub enum SubscribeError {
    /// Shutdown is in progress; no new subscriptions are accepted.
    ShuttingDown,
}

/// The supervisor's decision after the connection with `attempts`
/// consecutive failures so far fails once more.
#[derive(Clone, Copy, Debug, PartialEq, Eq, Structural)]
pub enum TerminalStep {
    /// Schedule reconnection attempt `attempt` after `delay_ms`.
    Retry { attempt: u32, delay_ms: u64 },
    /// The policy is exhausted: mark the connection failed.
    Exhausted,
}

/// What follows one more failure: attempt `attempts + 1` when the
/// policy still allows it, with its linear-backoff delay, else giving
/// up.
pub open spec fn spec_next_step(attempts: u32, policy: ReconnectPolicy) -> TerminalStep {
    if attempts + 1 <= policy.max_attempts {
        TerminalStep::Retry {
            attempt: (attempts + 1) as u32,
            delay_ms: spec_backoff_ms(policy, (attempts + 1) as u32),
        }
    } else {
        TerminalStep::Exhausted
    }
}

/// The minimal lifecycle interface a socket container offers; the two
/// supervisors elaborate on it with their topology-specific
/// subscription and event methods.
pub trait ISocketContainer {
    fn intialize(&self);

    fn connect(&self);

    fn disconnect(&self);

    fn add_symbol(&self);

    fn remove_symbol(&self);
}

/// Decides what follows one more failure of a connection.
pub fn next_step(attempts: u32, policy: &ReconnectPolicy) -> (r: TerminalStep)
    ensures
        r == spec_next_step(attempts, *policy),
{
    if attempts < policy.max_attempts {
        let attempt = attempts + 1;
        TerminalStep::Retry { attempt, delay_ms: policy.backoff_ms(attempt) }
    } else {
        TerminalStep::Exhausted
    }
}

} // verus!
