//! Capture logging: switching it on and off, and reading the log.
use vstd::prelude::*;

use crate::serial::SerialState;

verus! {

/// The query of a log read.
#[derive(Debug, Clone)]
pub struct LogsQuery {
    pub limit: Option<i64>,
}

/// How many log lines a read returns when the query names no limit.
pub const DEFAULT_LOG_LIMIT: i64 = 500;

impl LogsQuery {
    /// The limit the query names, else 500.
    pub fn limit_or_default(&self) -> (limit: i64)
        ensures
            limit == match self.limit {
                Some(l) => l,
                None => DEFAULT_LOG_LIMIT,
            },
    {
        match self.limit {
            Some(l) => l,
            None => DEFAULT_LOG_LIMIT,
        }
    }
}

/// Starts capture logging; the port need not be open. Returns the new flag.
pub fn start(state: &mut SerialState) -> (capturing: bool)
    ensures
        capturing,
        final(state)@ == old(state)@.with_capture(true),
{
    state.capturing = true;
    state.capturing
}

/// Stops capture logging. Returns the new flag.
pub fn stop(state: &mut SerialState) -> (capturing: bool)
    ensures
        !capturing,
        final(state)@ == old(state)@.with_capture(false),
{
    state.capturing = false;
    state.capturing
}

} // verus!
