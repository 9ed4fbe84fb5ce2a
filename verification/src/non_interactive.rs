//! The decisions of a single-prompt run: which backend and model to use,
//! what to do when the generation ends, and which exit code a failure
//! gets. The caller sends the request and watches for signals.
use vstd::prelude::*;
use crate::exit_codes::ExitCodes;
use crate::backend::{trim_end_char, trim_end_char_exec};
use crate::text::{all_ascii, ascii_lower, chars_of, contains, contains_str, fold_case, lower_case};

verus! {

/// How a generation ended.
#[derive(Debug, Clone, Copy, PartialEq, Eq)]
pub enum GenerationEnd {
    /// The response arrived in full.
    Completed,
    /// A signal interrupted the run; the response may be partial.
    Interrupted,
    /// The request failed; the response may be partial.
    Failed,
}

/// What to do once the generation has ended.
pub struct EndPlan {
    /// A notice for standard error, written first.
    pub notice: Option<String>,
    /// Whether the (possibly partial) response is written out.
    pub write_response: bool,
    /// The code to exit with right away, if any.
    pub exit_code: Option<i32>,
}

pub open spec fn opt_view(o: Option<String>) -> Option<Seq<char>> {
    match o {
        Some(s) => Some(s@),
        None => None,
    }
}

/// The exit code after a signal: the signal's own code when one was
/// recorded, else that of SIGINT.
pub open spec fn spec_interrupt_code(signal: i32) -> i32 {
    if signal != 0 {
        signal
    } else {
        ExitCodes::SIGINT
    }
}

/// The end of a generation. A completed response is written. An
/// interrupted or failed run writes its partial response only when asked
/// to save on interruption and there is something to save, with a notice
/// in streaming mode; an interrupted run then exits with its signal's code.
pub open spec fn spec_plan_end(
    end: GenerationEnd,
    streaming: bool,
    save_on_interrupt: bool,
    response_empty: bool,
    signal: i32,
) -> (Option<Seq<char>>, bool, Option<i32>) {
    let save = save_on_interrupt && !response_empty;
    match end {
        GenerationEnd::Completed => (None, true, None),
        GenerationEnd::Interrupted => (
            if save && streaming {
                Some("Saving partial response due to interruption..."@)
            } else {
                None
            },
            save,
            Some(spec_interrupt_code(signal)),
        ),
        GenerationEnd::Failed => (
            if save && streaming {
                Some("Saving partial response due to error..."@)
            } else {
                None
            },
            save,
            None,
        ),
    }
}

/// The exit code of a failed single-prompt run, by what its message (in
/// lower case) names.
pub open spec fn spec_processing_code(e: Seq<char>) -> i32 {
    if contains(e, "connection"@) || contains(e, "unreachable"@) {
        ExitCodes::BACKEND_UNREACHABLE
    } else if contains(e, "authentication"@) || contains(e, "unauthorized"@) {
        ExitCodes::AUTH_FAILED
    } else if contains(e, "model"@) && contains(e, "not found"@) {
        ExitCodes::MODEL_UNAVAILABLE
    } else if contains(e, "file"@) {
        ExitCodes::FILE_ERROR
    } else {
        ExitCodes::BACKEND_UNREACHABLE
    }
}

/// The model used when none is given.
pub open spec fn default_model() -> Seq<char> {
    "llama2"@
}

/// The exit code after a signal.
pub fn interrupt_exit_code(signal: i32) -> (code: i32)
    ensures
        code == spec_interrupt_code(signal),
{
    if signal != 0 {
        signal
    } else {
        ExitCodes::SIGINT
    }
}

/// What to do once the generation has ended.
pub fn plan_end(
    end: GenerationEnd,
    streaming: bool,
    save_on_interrupt: bool,
    response_empty: bool,
    signal: i32,
) -> (r: EndPlan)
    ensures
        (opt_view(r.notice), r.write_response, r.exit_code) == spec_plan_end(
            end,
            streaming,
            save_on_interrupt,
            response_empty,
            signal,
        ),
{
    let save = save_on_interrupt && !response_empty;
    match end {
        GenerationEnd::Completed => EndPlan { notice: None, write_response: true, exit_code: None },
        GenerationEnd::Interrupted => EndPlan {
            notice: if save && streaming {
                Some("Saving partial response due to interruption...".to_owned())
            } else {
                None
            },
            write_response: save,
            exit_code: Some(interrupt_exit_code(signal)),
        },
        GenerationEnd::Failed => EndPlan {
            notice: if save && streaming {
                Some("Saving partial response due to error...".to_owned())
            } else {
                None
            },
            write_response: save,
            exit_code: None,
        },
    }
}

/// The exit code of a failed single-prompt run; its message is matched
/// without regard to case.
pub fn processing_exit_code(error: &str) -> (code: i32)
    ensures
        code == spec_processing_code(fold_case(error@)),
{
    let lower = lower_case(error);
    let v = chars_of(lower.as_str());
    if contains_str(&v, "connection") || contains_str(&v, "unreachable") {
        ExitCodes::BACKEND_UNREACHABLE
    } else if contains_str(&v, "authentication") || contains_str(&v, "unauthorized") {
        ExitCodes::AUTH_FAILED
    } else if contains_str(&v, "model") && contains_str(&v, "not found") {
        ExitCodes::MODEL_UNAVAILABLE
    } else if contains_str(&v, "file") {
        ExitCodes::FILE_ERROR
    } else {
        ExitCodes::BACKEND_UNREACHABLE
    }
}

/// The backend URL to use: the one given on the command line, else the
/// configured Ollama URL; without trailing slashes, as the client uses it.
pub fn backend_url_choice(cli_url: Option<String>, configured: &str) -> (r: String)
    ensures
        r@ == trim_end_char(
            match cli_url {
                Some(u) => u@,
                None => configured@,
            },
            '/',
        ),
{
    match cli_url {
        Some(u) => trim_end_char_exec(u.as_str(), '/'),
        None => trim_end_char_exec(configured, '/'),
    }
}

/// The model to use: the one given, else `llama2`.
pub fn model_or_default(model: Option<String>) -> (r: String)
    ensures
        r@ == (match model {
            Some(m) => m@,
            None => default_model(),
        }),
{
    match model {
        Some(m) => m,
        None => "llama2".to_owned(),
    }
}

/// An interrupted run never exits successfully, and a failed run always
/// exits with one of the failure codes of a backend exchange.
pub proof fn law_failure_codes(signal: i32, e: Seq<char>)
    ensures
        spec_interrupt_code(signal) != ExitCodes::SUCCESS,
        spec_processing_code(e) == ExitCodes::BACKEND_UNREACHABLE || spec_processing_code(e)
            == ExitCodes::AUTH_FAILED || spec_processing_code(e) == ExitCodes::MODEL_UNAVAILABLE
            || spec_processing_code(e) == ExitCodes::FILE_ERROR,
{
}

/// A partial response is written only when saving on interruption was
/// asked for; a completed response is always written.
pub proof fn law_partial_response_needs_consent(
    end: GenerationEnd,
    streaming: bool,
    save_on_interrupt: bool,
    response_empty: bool,
    signal: i32,
)
    ensures
        end != GenerationEnd::Completed && spec_plan_end(
            end,
            streaming,
            save_on_interrupt,
            response_empty,
            signal,
        ).1 ==> save_on_interrupt && !response_empty,
        spec_plan_end(GenerationEnd::Completed, streaming, save_on_interrupt, response_empty, signal).1,
{
}

/// A failed run's messages that differ only in the case of their ASCII
/// letters give the same exit code, one of the failure codes of a backend
/// exchange.
pub proof fn law_processing_code_ignores_case(a: Seq<char>, b: Seq<char>)
    requires
        all_ascii(a),
        all_ascii(b),
        ascii_lower(a) == ascii_lower(b),
    ensures
        spec_processing_code(fold_case(a)) == spec_processing_code(fold_case(b)),
        2 <= spec_processing_code(fold_case(a)) <= 5,
{
}

} // verus!
