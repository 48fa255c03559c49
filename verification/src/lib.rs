//! A short-lived, per-user authentication cache layered over an external
//! privilege-elevation tool, together with the decision logic that drives
//! privileged-command requests: when to rely on previously established
//! trust, when to ask the caller for a credential, and how to classify the
//! tool's outcome. The process-spawning edges live outside this crate; the
//! library works on plain values (user ids, timestamps in seconds, captured
//! output) and is verified over them.

use vstd::prelude::*;

pub mod cache;
pub mod exec;
pub mod flow;
pub mod parse;
pub mod types;

verus! {

/// The fixed policy window, in minutes, during which a cached token is
/// usable without re-prompting.
pub const DEFAULT_TIMEOUT_MINUTES: u64 = 15;

} // verus!
