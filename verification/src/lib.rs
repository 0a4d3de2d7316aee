//! Core of a small message-relay service.
//!
//! A server accepts sessions on a rendezvous channel; each peer announces a
//! private callback address over which responses flow back, correlated by a
//! per-session identifier.  This crate holds the verified heart of that
//! service: the length-prefixed wire codec, the session state machine, the
//! registry mapping session identifiers to callback handles, and the
//! cooperative-shutdown bookkeeping.  Listening, connecting and reading bytes
//! are left to the surrounding process, which feeds plain values in and
//! carries the decided actions out.

use vstd::prelude::*;

pub mod client;
pub mod codec;
pub mod ident;
pub mod message;
pub mod registry;
pub mod server;
pub mod shutdown;

verus! {

/// Configuration handed to the tool by its operator.
pub struct ToolArgs {
    /// How much detail to log; each step up adds more.
    pub verbose: u8,
    /// Run as the echo server rather than as a client.
    pub server: bool,
    /// Path of the rendezvous socket.
    pub socket_path: String,
}

/// The log level selected by a count of verbosity flags, as a sequence of
/// characters.
pub open spec fn spec_telemetry_level(verbose_count: Option<u8>) -> Seq<char> {
    match verbose_count {
        None => "Error"@,
        Some(n) => {
            if n == 0 {
                "Error"@
            } else if n == 1 {
                "Warn"@
            } else if n == 2 {
                "Info"@
            } else if n == 3 {
                "Debug"@
            } else {
                "Trace"@
            }
        },
    }
}

/// Map a count of verbosity flags to the name of a log level.
pub fn telemetry_level(verbose_count: Option<u8>) -> (level: &'static str)
    ensures
        level@ == spec_telemetry_level(verbose_count),
{
    match verbose_count {
        None | Some(0) => "Error",
        Some(1) => "Warn",
        Some(2) => "Info",
        Some(3) => "Debug",
        _ => "Trace",
    }
}

} // verus!
