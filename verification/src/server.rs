//! Settings of the listening server and its runtime threads.
use vstd::prelude::*;
use crate::biz::decimal::{IntErrorKind, IntTarget, parse_int, spec_parse_int};

verus! {

/// The port that the server listens on when none is configured.
pub const DEFAULT_PORT: u16 = 8000;

/// The port to listen on: the configured one, else `8000`.
pub fn listen_port(port: Option<u16>) -> (r: u16)
    ensures
        r == match port {
            Some(p) => p,
            None => DEFAULT_PORT,
        },
{
    match port {
        Some(p) => p,
        None => DEFAULT_PORT,
    }
}

/// Reads the configured port from its text, as `text.parse::<u16>()` does.
pub fn parse_port(text: &str) -> (r: Result<u16, IntErrorKind>)
    ensures
        match r {
            Ok(p) => spec_parse_int(text@, IntTarget::U16) == Ok::<int, IntErrorKind>(p as int),
            Err(e) => spec_parse_int(text@, IntTarget::U16) == Err::<int, IntErrorKind>(e),
        },
{
    match parse_int(text, IntTarget::U16) {
        Ok(v) => Ok(v as u16),
        Err(e) => Err(e),
    }
}

/// How many runtimes run besides the main thread's: one per CPU after the
/// first, so that `cpus` runtimes serve in all (at least the main one).
pub fn extra_runtime_threads(cpus: usize) -> (r: usize)
    ensures
        r == if cpus == 0 {
            0
        } else {
            (cpus - 1) as usize
        },
{
    if cpus == 0 {
        0
    } else {
        cpus - 1
    }
}

} // verus!
