//! User-facing error messages of the interactive session, with the context
//! that selects them. Messages are collected as terminal lines, in order,
//! for the terminal to write.
use vstd::prelude::*;
use crate::text::{
    chars_of, char_vec_views, contains, contains_str, decimal, find_from, is_digit, is_ws, occurs_at,
    parse_u16, parse_u16_exec,
    push_str, push_string, split_second, split_second_exec, split_whitespace, u64_to_string,
    words,
};

verus! {

/// How a terminal line is shown.
#[derive(Debug, Clone, Copy, PartialEq, Eq)]
pub enum LineKind {
    /// Written as an error.
    Error,
    /// Written as information.
    Info,
    /// Written as is.
    Plain,
}

/// One line for the terminal.
#[derive(Debug, Clone)]
pub struct TerminalLine {
    pub kind: LineKind,
    pub text: String,
}

/// Context information for error display.
#[derive(Debug, Clone)]
pub enum ErrorContext {
    /// Backend-related error context
    Backend { url: String, timeout_seconds: u64 },
    /// File system error context
    Filesystem { operation: String, path: String },
    /// No specific context
    NoContext,
}

/// Enhanced error display: collects the lines to write, in order.
pub struct ErrorDisplay {
    lines: Vec<TerminalLine>,
}

/// The lines an `ErrorDisplay` holds, as kinds and texts.
pub open spec fn lines_view(v: Seq<TerminalLine>) -> Seq<(LineKind, Seq<char>)> {
    Seq::new(v.len(), |i: int| (v[i].kind, v[i].text@))
}

pub open spec fn connection_text(url: Seq<char>, error: Seq<char>) -> Seq<char> {
    "Failed to connect to "@ + url + ": "@ + error
}

pub open spec fn timeout_text(timeout_seconds: u64) -> Seq<char> {
    "Request timed out after "@ + decimal(timeout_seconds as nat) + "s"@
}

pub open spec fn http_text(status: u16, message: Seq<char>) -> Seq<char> {
    "Backend error ("@ + decimal(status as nat) + "): "@ + message
}

pub open spec fn filesystem_text(operation: Seq<char>, path: Seq<char>, error: Seq<char>) -> Seq<
    char,
> {
    "Failed to "@ + operation + " "@ + path + ": "@ + error
}

pub open spec fn config_warning_text(error: Seq<char>) -> Seq<char> {
    "Warning: Failed to load configuration: "@ + error + ". Using default values."@
}

pub open spec fn markdown_fallback_text() -> Seq<char> {
    "Note: Markdown rendering unavailable, displaying raw text"@
}

/// The message names a failed connection.
pub open spec fn names_connection(e: Seq<char>) -> bool {
    contains(e, "Failed to connect"@) || contains(e, "Connection refused"@) || contains(
        e,
        "No route to host"@,
    ) || contains(e, "Network is unreachable"@)
}

/// The message names a timeout.
pub open spec fn names_timeout(e: Seq<char>) -> bool {
    contains(e, "timed out"@) || contains(e, "timeout"@)
}

/// The status code of a "Backend returned error status" message: the first
/// word after `status: `, read as a `u16`.
pub open spec fn http_status_of(e: Seq<char>) -> Option<u16> {
    if !contains(e, "Backend returned error status"@) {
        None
    } else {
        match split_second(e, "status: "@) {
            None => None,
            Some(rest) => if words(rest).len() == 0 {
                None
            } else {
                parse_u16(words(rest)[0])
            },
        }
    }
}

/// The backend's message in an HTTP error: the text after ` - `.
pub open spec fn http_message_of(e: Seq<char>) -> Seq<char> {
    match split_second(e, " - "@) {
        Some(m) => m,
        None => "Unknown error"@,
    }
}

/// The line `display_error_with_context` writes for an error message.
pub open spec fn context_line(e: Seq<char>, ctx: ErrorContext) -> (LineKind, Seq<char>) {
    if names_connection(e) && ctx is Backend {
        (LineKind::Error, connection_text(ctx->Backend_url@, e))
    } else if names_timeout(e) && ctx is Backend {
        (LineKind::Error, timeout_text(ctx->Backend_timeout_seconds))
    } else if http_status_of(e) is Some {
        (LineKind::Error, http_text(http_status_of(e).unwrap(), http_message_of(e)))
    } else if (contains(e, "Failed to save"@) || contains(e, "Failed to load"@))
        && ctx is Filesystem {
        (LineKind::Error, filesystem_text(ctx->operation@, ctx->path@, e))
    } else {
        (LineKind::Error, e)
    }
}

impl ErrorDisplay {
    /// An error display with no lines yet.
    pub fn new() -> (d: Self)
        ensures
            d.lines().len() == 0,
    {
        ErrorDisplay { lines: Vec::new() }
    }

    /// The lines written so far, oldest first.
    pub closed spec fn lines(&self) -> Seq<(LineKind, Seq<char>)> {
        lines_view(self.lines@)
    }

    fn write(&mut self, kind: LineKind, text: String)
        ensures
            final(self).lines() == old(self).lines().push((kind, text@)),
    {
        self.lines.push(TerminalLine { kind, text });
        assert(lines_view(self.lines@) =~= lines_view(old(self).lines@).push((kind, text@)));
    }

    /// Writes "Failed to connect to {url}: {error}".
    pub fn display_connection_error(&mut self, url: &str, error: &str)
        ensures
            final(self).lines() == old(self).lines().push(
                (LineKind::Error, connection_text(url@, error@)),
            ),
    {
        let mut s = String::new();
        push_str(&mut s, "Failed to connect to ");
        push_str(&mut s, url);
        push_str(&mut s, ": ");
        push_str(&mut s, error);
        self.write(LineKind::Error, s);
    }

    /// Writes "Request timed out after {n}s".
    pub fn display_timeout_error(&mut self, timeout_seconds: u64)
        ensures
            final(self).lines() == old(self).lines().push(
                (LineKind::Error, timeout_text(timeout_seconds)),
            ),
    {
        let mut s = String::new();
        push_str(&mut s, "Request timed out after ");
        let n = u64_to_string(timeout_seconds);
        push_string(&mut s, &n);
        push_str(&mut s, "s");
        self.write(LineKind::Error, s);
    }

    /// Writes "Backend error ({status}): {message}".
    pub fn display_http_error(&mut self, status: u16, message: &str)
        ensures
            final(self).lines() == old(self).lines().push(
                (LineKind::Error, http_text(status, message@)),
            ),
    {
        let mut s = String::new();
        push_str(&mut s, "Backend error (");
        let n = u64_to_string(status as u64);
        push_string(&mut s, &n);
        push_str(&mut s, "): ");
        push_str(&mut s, message);
        self.write(LineKind::Error, s);
    }

    /// Writes "Failed to {operation} {path}: {error}".
    pub fn display_filesystem_error(&mut self, operation: &str, path: &str, error: &str)
        ensures
            final(self).lines() == old(self).lines().push(
                (LineKind::Error, filesystem_text(operation@, path@, error@)),
            ),
    {
        let mut s = String::new();
        push_str(&mut s, "Failed to ");
        push_str(&mut s, operation);
        push_str(&mut s, " ");
        push_str(&mut s, path);
        push_str(&mut s, ": ");
        push_str(&mut s, error);
        self.write(LineKind::Error, s);
    }

    /// Writes, as information, that the configuration could not be loaded
    /// and defaults are used.
    pub fn display_config_warning(&mut self, error: &str)
        ensures
            final(self).lines() == old(self).lines().push(
                (LineKind::Info, config_warning_text(error@)),
            ),
    {
        let mut s = String::new();
        push_str(&mut s, "Warning: Failed to load configuration: ");
        push_str(&mut s, error);
        push_str(&mut s, ". Using default values.");
        self.write(LineKind::Info, s);
    }

    /// Writes, as information, that markdown is shown as raw text.
    pub fn display_markdown_fallback(&mut self)
        ensures
            final(self).lines() == old(self).lines().push(
                (LineKind::Info, markdown_fallback_text()),
            ),
    {
        let mut s = String::new();
        push_str(&mut s, "Note: Markdown rendering unavailable, displaying raw text");
        self.write(LineKind::Info, s);
    }

    /// Writes the message that best fits an error and its context: a
    /// connection or timeout message for backend errors, the status and
    /// backend message of an HTTP error, a file message for file errors,
    /// else the error text itself.
    pub fn display_error_with_context(&mut self, error: &str, context: ErrorContext)
        ensures
            final(self).lines() == old(self).lines().push(context_line(error@, context)),
    {
        let e = chars_of(error);
        if contains_str(&e, "Failed to connect") || contains_str(&e, "Connection refused")
            || contains_str(&e, "No route to host") || contains_str(&e, "Network is unreachable") {
            if let ErrorContext::Backend { url, .. } = &context {
                self.display_connection_error(url.as_str(), error);
                return ;
            }
        }
        if contains_str(&e, "timed out") || contains_str(&e, "timeout") {
            if let ErrorContext::Backend { timeout_seconds, .. } = &context {
                self.display_timeout_error(*timeout_seconds);
                return ;
            }
        }
        if contains_str(&e, "Backend returned error status") {
            if let Some(rest) = split_second_exec(&e, "status: ") {
                let parts = split_whitespace(&rest);
                proof {
                    assert(char_vec_views(parts@).len() == parts@.len());
                }
                if parts.len() > 0 {
                    if let Some(status) = parse_u16_exec(&parts[0]) {
                        let message = match split_second_exec(&e, " - ") {
                            Some(m) => crate::text::string_from_chars(&m),
                            None => {
                                let mut u = String::new();
                                push_str(&mut u, "Unknown error");
                                u
                            },
                        };
                        self.display_http_error(status, message.as_str());
                        return ;
                    }
                }
            }
        }
        if contains_str(&e, "Failed to save") || contains_str(&e, "Failed to load") {
            if let ErrorContext::Filesystem { operation, path } = &context {
                self.display_filesystem_error(operation.as_str(), path.as_str(), error);
                return ;
            }
        }
        let mut s = String::new();
        push_str(&mut s, error);
        self.write(LineKind::Error, s);
    }

    /// The lines written so far, each prefixed by its kind ("Error: " or
    /// "Info: "), oldest first.
    pub fn get_output(&self) -> (out: Vec<String>)
        ensures
            out@.len() == self.lines().len(),
            forall|i: int|
                0 <= i < out@.len() ==> #[trigger] out@[i]@ == prefixed(self.lines()[i]),
    {
        let mut out: Vec<String> = Vec::new();
        let mut i: usize = 0;
        while i < self.lines.len()
            invariant
                i <= self.lines@.len(),
                out@.len() == i,
                forall|k: int|
                    0 <= k < i ==> #[trigger] out@[k]@ == prefixed(lines_view(self.lines@)[k]),
            decreases self.lines.len() - i,
        {
            let mut s = String::new();
            match self.lines[i].kind {
                LineKind::Error => push_str(&mut s, "Error: "),
                LineKind::Info => push_str(&mut s, "Info: "),
                LineKind::Plain => {},
            }
            push_string(&mut s, &self.lines[i].text);
            out.push(s);
            i = i + 1;
        }
        out
    }
}

/// A line as the terminal shows it.
pub open spec fn prefixed(line: (LineKind, Seq<char>)) -> Seq<char> {
    match line.0 {
        LineKind::Error => "Error: "@ + line.1,
        LineKind::Info => "Info: "@ + line.1,
        LineKind::Plain => line.1,
    }
}

/// An HTTP failure of the backend (as the client reports it) is shown with
/// its status code and the backend's message, when no context selects
/// another message and the message does not itself hold ` - `.
pub proof fn law_http_failure_shows_status_and_message(status: u16, body: Seq<char>)
    requires
        !contains(body, " - "@),
    ensures
        context_line(crate::backend::status_error_text(status, body), ErrorContext::NoContext) == (
            LineKind::Error,
            http_text(status, body),
        ),
{
    reveal_strlit("Backend returned error status: ");
    reveal_strlit("Backend returned error status");
    reveal_strlit("status: ");
    reveal_strlit(" - ");
    let p = "Backend returned error status: "@;
    let st = "status: "@;
    let sep = " - "@;
    let d = decimal(status as nat);
    let e = crate::backend::status_error_text(status, body);
    crate::text::lemma_decimal_digits(status as nat);
    crate::text::lemma_parse_u16_decimal(status);
    let n = d.len() as int;
    assert(e.len() == 34 + n + body.len());
    assert forall|k: int| 0 <= k < 31 implies e[k] == p[k] by {}
    assert forall|k: int| 0 <= k < n implies #[trigger] e[31 + k] == d[k] && is_digit(d[k]) by {}
    assert(e[31 + n] == ' ' && e[32 + n] == '-' && e[33 + n] == ' ');
    assert forall|k: int| 0 <= k < body.len() implies #[trigger] e[34 + n + k] == body[k] by {}

    // The message names an error status.
    assert(e.subrange(0, 29) =~= "Backend returned error status"@);
    assert(occurs_at(e, "Backend returned error status"@, 0));

    // The status code: the first word after the first `status: `.
    assert(e.subrange(23, 31) =~= st);
    assert forall|k: int| 0 <= k < 23 implies !occurs_at(e, st, k) by {
        if occurs_at(e, st, k) {
            assert(e.subrange(k, k + 8)[0] == e[k]);
        }
    }
    crate::text::lemma_find_first(e, st, 0, 23);
    crate::text::lemma_find_from_occurs(e, st, 31);
    assert forall|k: int| 31 <= k < 34 + n implies !occurs_at(e, st, k) by {
        if occurs_at(e, st, k) {
            assert(e.subrange(k, k + 8)[0] == e[k]);
            if k < 31 + n {
                assert(e[31 + (k - 31)] == d[k - 31]);
            }
        }
    }
    let g = match find_from(e, st, 31) {
        Some(g) => g,
        None => e.len() as int,
    };
    assert(34 + n <= g <= e.len());
    let rest = e.subrange(31, g);
    assert forall|k: int| 0 <= k < n implies !is_ws(#[trigger] rest[k]) by {
        assert(rest[k] == e[31 + k]);
    }
    assert(is_ws(rest[n]));
    assert(crate::text::skip_ws_from(rest, 0) == 0);
    crate::text::lemma_word_end(rest, 0);
    let w = crate::text::word_end(rest, 0);
    if w < n {
        assert(!is_ws(rest[w]));
    }
    assert(w == n);
    assert(rest.subrange(0, n) =~= d);
    assert(words(rest)[0] == d);
    assert(http_status_of(e) == Some(status));

    // The message: what follows the first ` - `, which is the body.
    assert(e.subrange(31 + n, 34 + n) =~= sep);
    assert forall|k: int| 0 <= k < 31 + n implies !occurs_at(e, sep, k) by {
        if occurs_at(e, sep, k) {
            assert(e.subrange(k, k + 3)[1] == e[k + 1]);
            if k + 1 < 31 {
                assert(e[k + 1] == p[k + 1]);
            } else if k + 1 < 31 + n {
                assert(e[31 + (k + 1 - 31)] == d[k + 1 - 31]);
            }
        }
    }
    crate::text::lemma_find_first(e, sep, 0, 31 + n);
    assert forall|k: int| 34 + n <= k implies !occurs_at(e, sep, k) by {
        if occurs_at(e, sep, k) {
            let j = k - (34 + n);
            assert(body.subrange(j, j + 3) =~= e.subrange(k, k + 3));
            assert(occurs_at(body, sep, j));
        }
    }
    crate::text::lemma_find_none(e, sep, 34 + n);
    assert(e.subrange(34 + n, e.len() as int) =~= body);
    assert(http_message_of(e) == body);
}

} // verus!
