//! Values shared by the board-facing and the user-facing protocol.

use std::time::Duration;
use std::time::SystemTime;
use vstd::prelude::*;

verus! {

/// A change to the input/output pins of a board. Both fields carry
/// hexadecimal bit strings of any width.
#[derive(Debug, Clone, PartialEq, Eq)]
pub struct IOSetting {
    pub mask: Option<String>,
    pub data: Option<String>,
}

/// The frequency of the user clock of a board.
#[derive(Debug, Clone, Copy, PartialEq, Eq)]
pub struct ClockSetting {
    pub frequency: u32,
}

/// `std::time::SystemTime`, a reading of the system clock. Verus takes a
/// value of it as opaque.
#[verifier::external_type_specification]
#[verifier::external_body]
pub struct ExSystemTime(SystemTime);

/// `SystemTime::now`: the reading of the system clock. Nothing is claimed
/// of it.
#[verifier::external_body]
fn system_now() -> (now: SystemTime) {
    SystemTime::now()
}

/// `SystemTime::duration_since`: the time from the start of 1970 to `time`,
/// or `None` where `time` lies before it. Nothing is claimed of the
/// duration.
#[verifier::external_body]
fn since_epoch(time: &SystemTime) -> (r: Option<Duration>) {
    time.duration_since(SystemTime::UNIX_EPOCH).ok()
}

/// `Duration::as_secs`: the whole seconds of a duration. Nothing is claimed
/// of their number.
#[verifier::external_body]
fn whole_seconds(duration: &Duration) -> (secs: u64) {
    duration.as_secs()
}

/// The seconds since the start of 1970 by the system clock, and zero where
/// the clock is set to an earlier time. The clock alone decides the result,
/// so nothing is promised of it here: `timestamp_from` says what is made of
/// each reading.
pub fn get_timestamp() -> u64 {
    let reading = match since_epoch(&system_now()) {
        Some(duration) => Some(whole_seconds(&duration)),
        None => None,
    };
    timestamp_from(reading)
}

/// The timestamp for a reading of the clock: the whole seconds that the
/// clock is past the start of 1970, and zero for `None`, the reading of a
/// clock that is set to an earlier time.
pub fn timestamp_from(reading: Option<u64>) -> (r: u64)
    ensures
        r == match reading {
            Some(seconds) => seconds,
            None => 0,
        },
{
    match reading {
        Some(seconds) => seconds,
        None => 0,
    }
}

/// What a session does when its heartbeat timer fires.
#[derive(Debug, Clone, Copy, PartialEq, Eq)]
pub enum Heartbeat {
    /// The peer answered lately: send it a ping.
    Ping,
    /// The peer has been silent for too long: close the connection.
    Stop,
}

/// The milliseconds from `earlier` to `now`, and zero where `earlier` is
/// the later of the two.
pub open spec fn elapsed(now: u64, earlier: u64) -> int {
    if now >= earlier {
        now - earlier
    } else {
        0
    }
}

/// Decides a heartbeat: the peer is given up once more than `timeout`
/// milliseconds have passed since it was last heard.
pub fn heartbeat(now: u64, last_heartbeat: u64, timeout: u64) -> (r: Heartbeat)
    ensures
        r == if elapsed(now, last_heartbeat) > timeout {
            Heartbeat::Stop
        } else {
            Heartbeat::Ping
        },
{
    if now >= last_heartbeat && now - last_heartbeat > timeout {
        Heartbeat::Stop
    } else {
        Heartbeat::Ping
    }
}

} // verus!
