//! How an internal error is reported: fatal in debug and pre-release builds,
//! logged otherwise.
use crate::text::{contains, text_contains};
use vstd::prelude::*;

verus! {

/// What to do with the message of an internal error.
#[derive(Debug, Clone, PartialEq, Eq)]
pub enum ErrorAction {
    /// Stop with a panic carrying the message.
    Panic(String),
    /// Record the message at error level and go on.
    Log(String),
}

/// Builds in which an internal error stops the program: debug builds, and
/// pre-release versions, whose version string holds `alpha`.
pub open spec fn fails_fast(debug_build: bool, version: Seq<char>) -> bool {
    debug_build || contains(version, "alpha"@)
}

/// Decides how an internal error is reported in a build with the given
/// debug setting and package version.
pub fn error_or_panic(message: String, debug_build: bool, version: &str) -> (r: ErrorAction)
    ensures
        r == (if fails_fast(debug_build, version@) {
            ErrorAction::Panic(message)
        } else {
            ErrorAction::Log(message)
        }),
{
    if debug_build || text_contains(version, "alpha") {
        ErrorAction::Panic(message)
    } else {
        ErrorAction::Log(message)
    }
}

} // verus!
