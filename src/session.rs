use vstd::prelude::*;

use crate::clock::{utc_hms, utc_time_of_day, EARLIEST_NANOS, END_NANOS};

verus! {

/// Delay between the transport opening and the subscribe requests.
pub const SETTLE_MILLIS: u64 = 3000;

/// Fixed pause after a transport error.
pub const ERROR_BACKOFF_MILLIS: u64 = 1000;

/// Cooldown after the venue forcibly disconnects the session.
pub const KICKED_COOLDOWN_MILLIS: u64 = 300_000;

/// Shortest reconnect delay.
pub const RECONNECT_FLOOR_MILLIS: u64 = 5000;

/// Longest reconnect delay.
pub const RECONNECT_CEILING_MILLIS: u64 = 30000;

/// The daily maintenance window opens at this UTC hour ...
pub const MAINTENANCE_HOUR: u8 = 19;

/// ... is detected during its first minutes ...
pub const MAINTENANCE_DETECT_MINUTES: u8 = 10;

/// ... and is waited out until this minute of the hour.
pub const MAINTENANCE_END_MINUTE: u8 = 15;

/// Lifecycle of the feed session.
#[derive(Clone, Copy, Debug, PartialEq, Eq, Structural)]
pub enum SessionState {
    Disconnected,
    Connecting { retries: u32 },
    Connected,
    Error { retries: u32 },
    Kicked,
    Reconnecting { retries: u32 },
}

/// What happened to the session.
#[derive(Clone, Copy, Debug, PartialEq, Eq, Structural)]
pub enum SessionEvent {
    /// The operator asks for a connection.
    Connect,
    /// The transport handshake completed.
    Opened,
    /// The transport failed, observed at this Unix time in nanoseconds.
    TransportError { now_nanos: i128 },
    /// The venue forcibly disconnected the session.
    Kicked,
    /// The last requested wait is over.
    WaitElapsed,
    /// The operator asks for a disconnect.
    Disconnect,
}

/// What the driver of the session has to do next.
#[derive(Clone, Copy, Debug, PartialEq, Eq, Structural)]
pub enum SessionAction {
    Nothing,
    OpenTransport,
    /// Wait this long, then send the subscribe requests for the channel list.
    SubscribeAfter { millis: u64 },
    /// Block for this long, then report `WaitElapsed`.
    Wait { millis: u64 },
    Release,
}

/// Seconds to wait out the maintenance window at a UTC time of day.
pub open spec fn maintenance_wait_spec(hour: u8, minute: u8, second: u8) -> int {
    if hour == MAINTENANCE_HOUR && minute < MAINTENANCE_DETECT_MINUTES {
        (MAINTENANCE_END_MINUTE - minute) * 60 - second
    } else {
        0
    }
}

/// Seconds to wait until the end of the maintenance window, zero outside it.
pub fn maintenance_wait_secs(hour: u8, minute: u8, second: u8) -> (r: u64)
    ensures
        r == maintenance_wait_spec(hour, minute, second),
{
    if hour == MAINTENANCE_HOUR && minute < MAINTENANCE_DETECT_MINUTES {
        ((MAINTENANCE_END_MINUTE - minute) as u64) * 60 - second as u64
    } else {
        0
    }
}

/// Reconnect delay after `retries` consecutive failed attempts.
pub open spec fn reconnect_delay_spec(retries: u32) -> u64 {
    let d = RECONNECT_FLOOR_MILLIS * (retries + 1);
    if d > RECONNECT_CEILING_MILLIS {
        RECONNECT_CEILING_MILLIS
    } else {
        d as u64
    }
}

/// Reconnect delay after `retries` consecutive failed attempts, within floor and ceiling.
pub fn reconnect_delay_millis(retries: u32) -> (r: u64)
    ensures
        r == reconnect_delay_spec(retries),
        RECONNECT_FLOOR_MILLIS <= r <= RECONNECT_CEILING_MILLIS,
{
    let d: u64 = RECONNECT_FLOOR_MILLIS * (retries as u64 + 1);
    if d > RECONNECT_CEILING_MILLIS {
        RECONNECT_CEILING_MILLIS
    } else {
        d
    }
}

/// Backoff after a transport error whose UTC time of day is `tod`, if it is known.
pub open spec fn error_backoff_spec(tod: Option<(u8, u8, u8)>) -> int {
    match tod {
        Some(t) => ERROR_BACKOFF_MILLIS + 1000 * maintenance_wait_spec(t.0, t.1, t.2),
        None => ERROR_BACKOFF_MILLIS as int,
    }
}

/// The session's transition table; `tod` is the UTC time of day of a transport error.
pub open spec fn next_session(s: SessionState, e: SessionEvent, tod: Option<(u8, u8, u8)>) -> (
    SessionState,
    SessionAction,
) {
    match e {
        SessionEvent::Disconnect => (
            SessionState::Disconnected,
            if s is Disconnected {
                SessionAction::Nothing
            } else {
                SessionAction::Release
            },
        ),
        SessionEvent::Connect => match s {
            SessionState::Disconnected => (
                SessionState::Connecting { retries: 0 },
                SessionAction::OpenTransport,
            ),
            _ => (s, SessionAction::Nothing),
        },
        SessionEvent::Opened => match s {
            SessionState::Connecting { .. } => (
                SessionState::Connected,
                SessionAction::SubscribeAfter { millis: SETTLE_MILLIS },
            ),
            _ => (s, SessionAction::Nothing),
        },
        SessionEvent::TransportError { .. } => {
            let wait = SessionAction::Wait { millis: error_backoff_spec(tod) as u64 };
            match s {
                SessionState::Connecting { retries } => (
                    SessionState::Error {
                        retries: if retries < u32::MAX {
                            (retries + 1) as u32
                        } else {
                            retries
                        },
                    },
                    wait,
                ),
                SessionState::Connected => (SessionState::Error { retries: 0 }, wait),
                SessionState::Reconnecting { retries } => (SessionState::Error { retries }, wait),
                _ => (s, SessionAction::Nothing),
            }
        },
        SessionEvent::Kicked => match s {
            SessionState::Connected | SessionState::Connecting { .. } => (
                SessionState::Kicked,
                SessionAction::Wait { millis: KICKED_COOLDOWN_MILLIS },
            ),
            _ => (s, SessionAction::Nothing),
        },
        SessionEvent::WaitElapsed => match s {
            SessionState::Error { retries } => (
                SessionState::Reconnecting { retries },
                SessionAction::Wait { millis: reconnect_delay_spec(retries) },
            ),
            SessionState::Kicked => (
                SessionState::Reconnecting { retries: 0 },
                SessionAction::Wait { millis: reconnect_delay_spec(0) },
            ),
            SessionState::Reconnecting { retries } => (
                SessionState::Connecting { retries },
                SessionAction::OpenTransport,
            ),
            _ => (s, SessionAction::Nothing),
        },
    }
}

/// One step of the session given the UTC time of day `tod` of the event, when known.
pub fn session_step_at(s: SessionState, e: SessionEvent, tod: Option<(u8, u8, u8)>) -> (r: (
    SessionState,
    SessionAction,
))
    ensures
        r == next_session(s, e, tod),
{
    match e {
        SessionEvent::Disconnect => {
            let a = match s {
                SessionState::Disconnected => SessionAction::Nothing,
                _ => SessionAction::Release,
            };
            (SessionState::Disconnected, a)
        },
        SessionEvent::Connect => match s {
            SessionState::Disconnected => (
                SessionState::Connecting { retries: 0 },
                SessionAction::OpenTransport,
            ),
            _ => (s, SessionAction::Nothing),
        },
        SessionEvent::Opened => match s {
            SessionState::Connecting { .. } => (
                SessionState::Connected,
                SessionAction::SubscribeAfter { millis: SETTLE_MILLIS },
            ),
            _ => (s, SessionAction::Nothing),
        },
        SessionEvent::TransportError { .. } => {
            let extra: u64 = match tod {
                Some(t) => maintenance_wait_secs(t.0, t.1, t.2),
                None => 0,
            };
            assert(extra <= 15 * 60);
            let wait = SessionAction::Wait { millis: ERROR_BACKOFF_MILLIS + 1000 * extra };
            match s {
                SessionState::Connecting { retries } => {
                    let r = if retries < u32::MAX {
                        retries + 1
                    } else {
                        retries
                    };
                    (SessionState::Error { retries: r }, wait)
                },
                SessionState::Connected => (SessionState::Error { retries: 0 }, wait),
                SessionState::Reconnecting { retries } => (SessionState::Error { retries }, wait),
                _ => (s, SessionAction::Nothing),
            }
        },
        SessionEvent::Kicked => match s {
            SessionState::Connected | SessionState::Connecting { .. } => (
                SessionState::Kicked,
                SessionAction::Wait { millis: KICKED_COOLDOWN_MILLIS },
            ),
            _ => (s, SessionAction::Nothing),
        },
        SessionEvent::WaitElapsed => match s {
            SessionState::Error { retries } => (
                SessionState::Reconnecting { retries },
                SessionAction::Wait { millis: reconnect_delay_millis(retries) },
            ),
            SessionState::Kicked => (
                SessionState::Reconnecting { retries: 0 },
                SessionAction::Wait { millis: reconnect_delay_millis(0) },
            ),
            SessionState::Reconnecting { retries } => (
                SessionState::Connecting { retries },
                SessionAction::OpenTransport,
            ),
            _ => (s, SessionAction::Nothing),
        },
    }
}

/// One step of the session. A transport error reads the UTC clock from its timestamp to
/// decide whether the maintenance window must be waited out.
pub fn session_step(s: SessionState, e: SessionEvent) -> (r: (SessionState, SessionAction))
    ensures
        !(e is TransportError) ==> r == next_session(s, e, None),
        e matches SessionEvent::TransportError { now_nanos } ==> (r == next_session(
            s,
            e,
            None,
        ) || r == next_session(s, e, Some(utc_hms(now_nanos)))),
        e matches SessionEvent::TransportError { now_nanos } ==> (EARLIEST_NANOS <= now_nanos
            < END_NANOS ==> r == next_session(s, e, Some(utc_hms(now_nanos)))),
{
    let tod = match e {
        SessionEvent::TransportError { now_nanos } => utc_time_of_day(now_nanos),
        _ => None,
    };
    session_step_at(s, e, tod)
}

/// Disconnecting is idempotent: from any state it ends in `Disconnected`, and a second
/// disconnect releases nothing.
pub proof fn lemma_disconnect_idempotent(s: SessionState, tod: Option<(u8, u8, u8)>)
    ensures
        next_session(s, SessionEvent::Disconnect, tod).0 == SessionState::Disconnected,
        next_session(
            next_session(s, SessionEvent::Disconnect, tod).0,
            SessionEvent::Disconnect,
            tod,
        ) == (SessionState::Disconnected, SessionAction::Nothing),
{
}

} // verus!
