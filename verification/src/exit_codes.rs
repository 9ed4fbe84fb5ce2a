//! Exit codes of the non-interactive mode and the classification of errors
//! into them.
use vstd::prelude::*;
use crate::text::{all_ascii, ascii_lower, chars_of, contains, contains_str, fold_case, lower_case};

verus! {

/// Standard exit codes for the kinds of failure (Unix conventions).
pub struct ExitCodes;

impl ExitCodes {
    /// Success - operation completed successfully
    pub const SUCCESS: i32 = 0;

    /// Invalid arguments: empty prompts, invalid parameter values, conflicting flags
    pub const INVALID_ARGS: i32 = 1;

    /// Backend unreachable: network problems, invalid URLs, timeouts
    pub const BACKEND_UNREACHABLE: i32 = 2;

    /// Authentication failed: invalid API keys, permission denied by the backend
    pub const AUTH_FAILED: i32 = 3;

    /// Model unavailable: model not found or cannot be loaded
    pub const MODEL_UNAVAILABLE: i32 = 4;

    /// File error: missing, unreadable, binary or too large files
    pub const FILE_ERROR: i32 = 5;

    /// SIGINT received (128 + 2)
    pub const SIGINT: i32 = 130;

    /// SIGTERM received (128 + 15)
    pub const SIGTERM: i32 = 143;
}

/// The message names a network failure.
pub open spec fn mentions_backend(e: Seq<char>) -> bool {
    contains(e, "failed to connect"@) || contains(e, "connection refused"@) || contains(
        e,
        "no route to host"@,
    ) || contains(e, "network is unreachable"@) || contains(e, "timed out"@) || contains(
        e,
        "timeout"@,
    )
}

/// The message names a file failure.
pub open spec fn mentions_file(e: Seq<char>) -> bool {
    contains(e, "file not found"@) || contains(e, "no such file"@) || contains(
        e,
        "cannot read file"@,
    ) || contains(e, "cannot access file"@) || contains(e, "binary file"@) || contains(
        e,
        "appears to be binary"@,
    ) || contains(e, "file too large"@) || (contains(e, "file"@) && contains(e, "too large"@))
        || (contains(e, "permission denied"@) && (contains(e, "cannot read file"@) || contains(
        e,
        "cannot access file"@,
    )) && !contains(e, "authentication"@))
}

/// The message names an authentication failure.
pub open spec fn mentions_auth(e: Seq<char>) -> bool {
    contains(e, "unauthorized"@) || contains(e, "authentication failed"@) || contains(
        e,
        "invalid api key"@,
    ) || contains(e, "permission denied"@) || contains(e, "access denied"@)
}

/// The message names a model failure.
pub open spec fn mentions_model(e: Seq<char>) -> bool {
    contains(e, "model not found"@) || contains(e, "model unavailable"@) || contains(
        e,
        "model loading failed"@,
    ) || contains(e, "unknown model"@)
}

/// The exit code for an error message already in lower case: the first
/// category that matches, in the order backend, file, authentication,
/// model; invalid arguments otherwise.
pub open spec fn spec_category(e: Seq<char>) -> i32 {
    if mentions_backend(e) {
        ExitCodes::BACKEND_UNREACHABLE
    } else if mentions_file(e) {
        ExitCodes::FILE_ERROR
    } else if mentions_auth(e) {
        ExitCodes::AUTH_FAILED
    } else if mentions_model(e) {
        ExitCodes::MODEL_UNAVAILABLE
    } else {
        ExitCodes::INVALID_ARGS
    }
}

/// The exit code for an error, from its message (matched case-insensitively).
pub fn categorize_error(error: &str) -> (code: i32)
    ensures
        code == spec_category(fold_case(error@)),
{
    let lower = lower_case(error);
    let e = chars_of(lower.as_str());
    if contains_str(&e, "failed to connect") || contains_str(&e, "connection refused")
        || contains_str(&e, "no route to host") || contains_str(&e, "network is unreachable")
        || contains_str(&e, "timed out") || contains_str(&e, "timeout") {
        return ExitCodes::BACKEND_UNREACHABLE;
    }
    if contains_str(&e, "file not found") || contains_str(&e, "no such file") || contains_str(
        &e,
        "cannot read file",
    ) || contains_str(&e, "cannot access file") || contains_str(&e, "binary file")
        || contains_str(&e, "appears to be binary") || contains_str(&e, "file too large") || (
    contains_str(&e, "file") && contains_str(&e, "too large")) || (contains_str(
        &e,
        "permission denied",
    ) && (contains_str(&e, "cannot read file") || contains_str(&e, "cannot access file"))
        && !contains_str(&e, "authentication")) {
        return ExitCodes::FILE_ERROR;
    }
    if contains_str(&e, "unauthorized") || contains_str(&e, "authentication failed")
        || contains_str(&e, "invalid api key") || contains_str(&e, "permission denied")
        || contains_str(&e, "access denied") {
        return ExitCodes::AUTH_FAILED;
    }
    if contains_str(&e, "model not found") || contains_str(&e, "model unavailable")
        || contains_str(&e, "model loading failed") || contains_str(&e, "unknown model") {
        return ExitCodes::MODEL_UNAVAILABLE;
    }
    ExitCodes::INVALID_ARGS
}

/// Every error maps to a non-zero failure code below 128, and a message
/// that names a network failure always maps to `BACKEND_UNREACHABLE`.
pub proof fn law_error_codes_are_failures(e: Seq<char>)
    ensures
        spec_category(e) != ExitCodes::SUCCESS,
        1 <= spec_category(e) <= 5,
        mentions_backend(e) ==> spec_category(e) == ExitCodes::BACKEND_UNREACHABLE,
        !mentions_backend(e) && mentions_file(e) ==> spec_category(e) == ExitCodes::FILE_ERROR,
{
}

/// Messages that differ only in the case of their ASCII letters get the
/// same exit code, and every code is one of the five failure codes.
pub proof fn law_category_ignores_case(a: Seq<char>, b: Seq<char>)
    requires
        all_ascii(a),
        all_ascii(b),
        ascii_lower(a) == ascii_lower(b),
    ensures
        spec_category(fold_case(a)) == spec_category(fold_case(b)),
        1 <= spec_category(fold_case(a)) <= 5,
{
    law_error_codes_are_failures(fold_case(a));
}

} // verus!
