//! The event record that flows through the bus.

use vstd::prelude::*;
use crate::julian::{
    clock_since_epoch, unix_julian_micros, MAX_UNIX_SECONDS, SECOND_MICROS, UNIX_EPOCH_JULIAN_MICROS,
};

verus! {

/// One event. Time stamps are Julian Dates in microseconds (see `julian`).
#[derive(Clone, Debug)]
pub struct IndraEvent {
    /// Hierarchical `/`-separated topic; for control messages, the command.
    pub domain: String,
    /// Origin identity, conventionally `<task-name>/<instance>`.
    pub from_id: String,
    /// Unique id of the event.
    pub uuid4: String,
    /// The request this event answers, if any.
    pub parent_uuid4: Option<String>,
    /// Sequence number given by the persistence task.
    pub seq_no: Option<i64>,
    /// Authorization or session scope, topic-shaped.
    pub to_scope: String,
    /// Start time, Julian Date in microseconds.
    pub time_jd_start: i64,
    /// Slash-structured tag describing the shape of `data`.
    pub data_type: String,
    /// The payload, read according to `data_type`.
    pub data: String,
    /// Optional integrity token.
    pub auth_hash: Option<String>,
    /// End time, Julian Date in microseconds.
    pub time_jd_end: Option<i64>,
}

/// Optional text fields and end time: all absent.
pub open spec fn is_blank_event(e: IndraEvent) -> bool {
    &&& e.domain@.len() == 0
    &&& e.from_id@.len() == 0
    &&& e.uuid4@.len() == 0
    &&& e.parent_uuid4 is None
    &&& e.seq_no is None
    &&& e.to_scope@.len() == 0
    &&& e.data_type@.len() == 0
    &&& e.data@.len() == 0
    &&& e.auth_hash is None
    &&& e.time_jd_end is None
}

impl IndraEvent {
    /// An event that starts at `time_jd_start`, with every other field empty.
    pub fn at(time_jd_start: i64) -> (r: IndraEvent)
        ensures
            is_blank_event(r),
            r.time_jd_start == time_jd_start,
    {
        IndraEvent {
            domain: String::new(),
            from_id: String::new(),
            uuid4: String::new(),
            parent_uuid4: None,
            seq_no: None,
            to_scope: String::new(),
            time_jd_start,
            data_type: String::new(),
            data: String::new(),
            auth_hash: None,
            time_jd_end: None,
        }
    }

    /// An empty event stamped `secs` seconds and `nanos` nanoseconds after the
    /// Unix epoch; `None` beyond the calendar range.
    pub fn at_unix_time(secs: u64, nanos: u32) -> (r: Option<IndraEvent>)
        requires
            nanos < 1_000_000_000,
        ensures
            r is Some <==> secs <= MAX_UNIX_SECONDS,
            r matches Some(e) ==> is_blank_event(e) && e.time_jd_start == unix_julian_micros(
                secs as int,
                nanos as int,
            ),
    {
        if secs > MAX_UNIX_SECONDS {
            None
        } else {
            let micros = secs as i64 * SECOND_MICROS + (nanos / 1000) as i64;
            Some(IndraEvent::at(UNIX_EPOCH_JULIAN_MICROS + micros))
        }
    }

    /// An empty event stamped with the current time; `None` when the system
    /// clock reads before the Unix epoch or beyond the calendar range.
    pub fn new() -> (r: Option<IndraEvent>)
        ensures
            r matches Some(e) ==> is_blank_event(e) && exists|secs: int, nanos: int|
                0 <= secs <= MAX_UNIX_SECONDS && 0 <= nanos < 1_000_000_000 && e.time_jd_start
                    == unix_julian_micros(secs, nanos),
    {
        match clock_since_epoch() {
            Some((secs, nanos)) => IndraEvent::at_unix_time(secs, nanos),
            None => None,
        }
    }
}

/// How a history request samples the stored values.
#[derive(Clone, Copy, Debug, PartialEq, Eq, Structural)]
pub enum IndraHistoryRequestMode {
    Interval,
    Single,
    Sample,
}

/// A request for the stored values of a domain, optionally within a time
/// window (Julian Dates in microseconds) and up to a number of samples.
#[derive(Clone, Debug)]
pub struct IndraHistoryRequest {
    pub domain: String,
    pub mode: IndraHistoryRequestMode,
    pub data_type: String,
    pub time_jd_start: Option<i64>,
    pub time_jd_end: Option<i64>,
    pub limit: Option<u32>,
}

/// A request for the distinct domains stored, optionally filtered by domain
/// and data type patterns.
#[derive(Clone, Debug)]
pub struct IndraUniqueDomainsRequest {
    pub domain: Option<String>,
    pub data_type: Option<String>,
}

} // verus!
