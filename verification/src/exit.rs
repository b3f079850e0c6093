//! The program's exit status: 0 for success, and for each kind of failure
//! its stable code.
use vstd::prelude::*;
use crate::names::NAME_RULE;
use crate::setup::CHECKS_FAILED;
use crate::storage::{LOCK_BUSY, NOT_INITIALIZED};
use crate::text::{starts_with, str_eq, str_has_prefix};

verus! {

/// Success.
pub const EXIT_OK: u8 = 0;

/// Another runtime or I/O error.
pub const EXIT_RUNTIME: u8 = 1;

/// Invalid command-line arguments.
pub const EXIT_USAGE: u8 = 2;

/// Missing or invalid initialization or setup.
pub const EXIT_SETUP: u8 = 3;

/// Missing, invalid or conflicting profile state.
pub const EXIT_PROFILE: u8 = 4;

/// An authentication or Codex App Server error.
pub const EXIT_SERVER: u8 = 5;

/// A Codex App Server query that timed out.
pub const EXIT_TIMEOUT: u8 = 6;

/// Another operation holds the lock.
pub const EXIT_LOCKED: u8 = 7;

/// The code of a failure: `2` for anything the command line was refused
/// for (`from_arguments`) and for a refused profile name; then by the
/// message the library gave: setup (`init` not run, `HOME` unset, a failed
/// `doctor`), profile state (a profile that is missing, exists, or is
/// active), the login and the App Server, a query that timed out, and the
/// lock; `1` for anything else.
pub open spec fn failure_code(message: Seq<char>, from_arguments: bool) -> u8 {
    if from_arguments || message == NAME_RULE@ {
        EXIT_USAGE
    } else if message == NOT_INITIALIZED@ || message == "HOME is not set"@ || message
        == CHECKS_FAILED@ {
        EXIT_SETUP
    } else if starts_with(message, "profile '"@) {
        EXIT_PROFILE
    } else if message == "account query timed out"@ || message == "rate-limit query timed out"@ {
        EXIT_TIMEOUT
    } else if starts_with(message, "Codex login failed"@) || starts_with(
        message,
        "cannot start 'codex"@,
    ) || starts_with(message, "account/"@) {
        EXIT_SERVER
    } else if message == LOCK_BUSY@ {
        EXIT_LOCKED
    } else {
        EXIT_RUNTIME
    }
}

/// The exit status of a run: `0` on success, otherwise the failure's code.
pub open spec fn exit_status(result: Result<(), Seq<char>>, from_arguments: bool) -> u8 {
    match result {
        Ok(()) => EXIT_OK,
        Err(m) => failure_code(m, from_arguments),
    }
}

/// The exit status of a run; `from_arguments` tells an error of the
/// command line from one of the command.
pub fn exit_code(result: &Result<(), String>, from_arguments: bool) -> (r: u8)
    ensures
        r == exit_status(
            match result {
                Ok(()) => Ok(()),
                Err(m) => Err(m@),
            },
            from_arguments,
        ),
{
    let m = match result {
        Ok(()) => return EXIT_OK,
        Err(m) => m.as_str(),
    };
    if from_arguments || str_eq(m, NAME_RULE) {
        EXIT_USAGE
    } else if str_eq(m, NOT_INITIALIZED) || str_eq(m, "HOME is not set") || str_eq(m, CHECKS_FAILED) {
        EXIT_SETUP
    } else if str_has_prefix(m, "profile '") {
        EXIT_PROFILE
    } else if str_eq(m, "account query timed out") || str_eq(m, "rate-limit query timed out") {
        EXIT_TIMEOUT
    } else if str_has_prefix(m, "Codex login failed") || str_has_prefix(m, "cannot start 'codex")
        || str_has_prefix(m, "account/") {
        EXIT_SERVER
    } else if str_eq(m, LOCK_BUSY) {
        EXIT_LOCKED
    } else {
        EXIT_RUNTIME
    }
}

} // verus!
