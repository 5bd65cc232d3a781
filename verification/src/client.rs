//! The client's decisions: how to get a connection to the daemon (starting
//! it if allowed and waiting for it to come up), and what to make of the
//! daemon's replies.
//!
//! The socket work, the spawning and the sleeping happen at the edge, which
//! reports each outcome as an event and does what the returned action says.
use vstd::prelude::*;

use vstd::string::StringExecFns;

use crate::protocol::Response;
use crate::text::{decimal_chars, decimal_string};
use crate::time::{Duration, Instant, NANOS_PER_SEC};

verus! {

/// How long a client waits for a daemon it started, in seconds.
pub const SPAWN_WAIT_SECS: u64 = 3;

/// The pause between two connection attempts while waiting, in milliseconds.
pub const RETRY_DELAY_MILLIS: u128 = 50;

/// Where a connection attempt stands.
#[derive(Debug, Clone, Copy, PartialEq, Eq, Structural)]
pub enum ConnectState {
    /// Nothing tried yet; whether the daemon may be started.
    Initial { auto_spawn: bool },
    /// A daemon was started; it has until `deadline` to answer.
    Waiting { deadline: Instant },
}

/// What happened at the edge.
#[derive(Debug, Clone, Copy, PartialEq, Eq, Structural)]
pub enum ConnectEvent {
    /// A connection attempt ended at `now`; `connected` says whether it succeeded.
    Attempted { connected: bool, now: Instant },
    /// The daemon was started at `now`.
    Spawned { now: Instant },
}

/// Why no connection came about.
#[derive(Debug, Clone, Copy, PartialEq, Eq, Structural)]
pub enum ConnectFailure {
    /// Nothing listens on the socket and the daemon may not be started.
    NotReachable,
    /// A started daemon did not answer before the deadline.
    DidNotComeUp,
}

/// What the edge is to do next.
#[derive(Debug, Clone, Copy, PartialEq, Eq, Structural)]
pub enum ConnectAction {
    /// Use the connection just made.
    Use,
    /// Start the daemon, then report `Spawned`.
    Spawn,
    /// Sleep this long, try to connect, and report `Attempted`.
    Retry(Duration),
    /// Give up.
    Fail(ConnectFailure),
}

/// The pause between attempts while waiting for a started daemon, in nanoseconds.
pub open spec fn retry_delay() -> nat {
    (RETRY_DELAY_MILLIS * 1_000_000) as nat
}

/// One step of connecting: the state and action that follow `event` in `state`.
pub open spec fn connect_step(state: ConnectState, event: ConnectEvent) -> (ConnectState, ConnectAction) {
    match event {
        ConnectEvent::Spawned { now } => (
            ConnectState::Waiting {
                deadline: Instant { nanos: (now@ + SPAWN_WAIT_SECS * NANOS_PER_SEC) as u128 },
            },
            ConnectAction::Retry(Duration { nanos: retry_delay() as u128 }),
        ),
        ConnectEvent::Attempted { connected, now } => {
            if connected {
                (state, ConnectAction::Use)
            } else {
                match state {
                    ConnectState::Initial { auto_spawn } => if auto_spawn {
                        (state, ConnectAction::Spawn)
                    } else {
                        (state, ConnectAction::Fail(ConnectFailure::NotReachable))
                    },
                    ConnectState::Waiting { deadline } => if now@ >= deadline@ {
                        (state, ConnectAction::Fail(ConnectFailure::DidNotComeUp))
                    } else {
                        (state, ConnectAction::Retry(Duration { nanos: retry_delay() as u128 }))
                    },
                }
            }
        },
    }
}

/// Decides the next step of connecting to the daemon.
pub fn connect_step_exec(state: ConnectState, event: ConnectEvent) -> (r: (ConnectState, ConnectAction))
    requires
        event matches ConnectEvent::Spawned { now } ==> now@ + SPAWN_WAIT_SECS * NANOS_PER_SEC <= u128::MAX,
    ensures
        r == connect_step(state, event),
{
    let delay = Duration { nanos: RETRY_DELAY_MILLIS * 1_000_000 };
    match event {
        ConnectEvent::Spawned { now } => {
            let deadline = now.after(Duration::from_secs(SPAWN_WAIT_SECS));
            (ConnectState::Waiting { deadline }, ConnectAction::Retry(delay))
        },
        ConnectEvent::Attempted { connected, now } => {
            if connected {
                (state, ConnectAction::Use)
            } else {
                match state {
                    ConnectState::Initial { auto_spawn } => if auto_spawn {
                        (state, ConnectAction::Spawn)
                    } else {
                        (state, ConnectAction::Fail(ConnectFailure::NotReachable))
                    },
                    ConnectState::Waiting { deadline } => if now.nanos >= deadline.nanos {
                        (state, ConnectAction::Fail(ConnectFailure::DidNotComeUp))
                    } else {
                        (state, ConnectAction::Retry(delay))
                    },
                }
            }
        },
    }
}

/// A client that may not start the daemon never starts it, and a client that
/// started one gives up only once the deadline has passed: until then every
/// failed attempt is followed by another after the same short pause.
pub proof fn law_connect_waits_until_deadline(state: ConnectState, event: ConnectEvent)
    ensures
        state == (ConnectState::Initial { auto_spawn: false }) ==> connect_step(state, event).1 != ConnectAction::Spawn,
        ({
            &&& state matches ConnectState::Waiting { deadline }
            &&& event matches ConnectEvent::Attempted { connected, now }
            &&& connect_step(state, event).1 is Fail
        }) ==> ({
            &&& state matches ConnectState::Waiting { deadline }
            &&& event matches ConnectEvent::Attempted { connected, now }
            &&& now@ >= deadline@
            &&& !connected
        }),
        (state is Waiting && event is Attempted) ==> connect_step(state, event).0 == state,
{
}

/// A connection that was made is used, whatever the state; a refused first
/// attempt starts the daemon exactly when that is allowed and otherwise
/// gives up as unreachable; a start is always followed by a wait of three
/// seconds from the moment it was reported, retried every 50 ms.
pub proof fn law_connect_outcomes(state: ConnectState, now: Instant, auto_spawn: bool)
    requires
        now@ + 3_000_000_000 <= u128::MAX,
    ensures
        connect_step(state, ConnectEvent::Attempted { connected: true, now }).1 == ConnectAction::Use,
        connect_step(ConnectState::Initial { auto_spawn }, ConnectEvent::Attempted { connected: false, now }).1
            == (if auto_spawn { ConnectAction::Spawn } else { ConnectAction::Fail(ConnectFailure::NotReachable) }),
        connect_step(state, ConnectEvent::Spawned { now }).0 matches ConnectState::Waiting { deadline }
            && deadline@ == now@ + 3_000_000_000,
        connect_step(state, ConnectEvent::Spawned { now }).1 == ConnectAction::Retry(Duration { nanos: 50_000_000 }),
{
}

/// Why a call to the daemon did not produce the expected answer.
#[derive(Debug, Clone)]
pub enum ClientError {
    /// The daemon answered with this error message.
    Daemon(String),
    /// The daemon closed the connection without answering.
    Closed,
    /// The daemon answered with a response of another kind than asked for.
    Unexpected(Response),
}

/// Takes the daemon's reply to a call apart: an error reply becomes the
/// daemon's message, no reply means the daemon closed the connection, any
/// other reply is handed on.
pub fn check_reply(reply: Option<Response>) -> (r: Result<Response, ClientError>)
    ensures
        match reply {
            None => r == Err::<Response, ClientError>(ClientError::Closed),
            Some(Response::Error { ok, error }) => r == Err::<Response, ClientError>(ClientError::Daemon(error)),
            Some(resp) => r == Ok::<Response, ClientError>(resp),
        },
{
    match reply {
        None => Err(ClientError::Closed),
        Some(Response::Error { ok, error }) => Err(ClientError::Daemon(error)),
        Some(resp) => Ok(resp),
    }
}

/// The value of a `Value` reply; any other reply is unexpected.
pub fn expect_value(resp: Response) -> (r: Result<String, ClientError>)
    ensures
        match resp {
            Response::Value { ok, value } => r == Ok::<String, ClientError>(value),
            _ => r == Err::<String, ClientError>(ClientError::Unexpected(resp)),
        },
{
    match resp {
        Response::Value { ok, value } => Ok(value),
        other => Err(ClientError::Unexpected(other)),
    }
}

/// What a `Status` reply reports.
#[derive(Debug, Clone, Copy, PartialEq, Eq, Structural)]
pub struct StatusReport {
    pub entries: usize,
    pub ttl_secs: u64,
    pub uptime_secs: u64,
}

/// The report of a `Status` reply; any other reply is unexpected.
pub fn expect_status(resp: Response) -> (r: Result<StatusReport, ClientError>)
    ensures
        match resp {
            Response::Status { ok, entries, ttl_secs, uptime_secs } => r == Ok::<StatusReport, ClientError>(
                StatusReport { entries, ttl_secs, uptime_secs },
            ),
            _ => r == Err::<StatusReport, ClientError>(ClientError::Unexpected(resp)),
        },
{
    match resp {
        Response::Status { ok, entries, ttl_secs, uptime_secs } => Ok(StatusReport { entries, ttl_secs, uptime_secs }),
        other => Err(ClientError::Unexpected(other)),
    }
}

/// How `humantime::format_duration` writes a duration of `secs` seconds.
pub uninterp spec fn humantime_format_secs(secs: nat) -> Seq<char>;

/// A duration of `secs` seconds in human-readable form, such as `7days` or
/// `2h 37m`.
///
/// Calls `humantime::format_duration` on `std::time::Duration::from_secs(secs)`
/// and takes its `Display` text. The contract only names the text: it depends
/// on `secs` alone.
#[verifier::external_body]
fn format_secs(secs: u64) -> (s: String)
    ensures
        s@ == humantime_format_secs(secs as nat),
{
    humantime::format_duration(std::time::Duration::from_secs(secs)).to_string()
}

/// The text of the status report for the daemon at `socket`.
pub open spec fn status_report(socket: Seq<char>, r: StatusReport) -> Seq<char> {
    "socket:  "@ + socket + "\n"@
        + "entries: "@ + decimal_chars(r.entries as nat) + "\n"@
        + "ttl:     "@ + humantime_format_secs(r.ttl_secs as nat) + "\n"@
        + "uptime:  "@ + humantime_format_secs(r.uptime_secs as nat) + "\n"@
}

/// Writes the status report: the socket, the number of cached entries, the
/// TTL and the uptime, one per line.
pub fn status_report_text(socket: &str, r: StatusReport) -> (t: String)
    ensures
        t@ == status_report(socket@, r),
{
    let entries = decimal_string(r.entries as u64);
    let ttl = format_secs(r.ttl_secs);
    let uptime = format_secs(r.uptime_secs);
    let t = String::from_str("socket:  ")
        .concat(socket)
        .concat("\n")
        .concat("entries: ")
        .concat(entries.as_str())
        .concat("\n")
        .concat("ttl:     ")
        .concat(ttl.as_str())
        .concat("\n")
        .concat("uptime:  ")
        .concat(uptime.as_str())
        .concat("\n");
    t
}

} // verus!
