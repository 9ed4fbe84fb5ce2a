//! Choosing between the interactive session and a single prompt, from the
//! arguments, what standard input held and whether the standard streams are
//! terminals.
use vstd::prelude::*;
use crate::text::{
    any_binary_char, byte_len, chars_of, decimal, has_binary_char, has_char, push_str,
    push_string, str_len, string_from_range, trim_end, trim_end_bound, u64_to_string,
};

verus! {

/// Execution mode for the CLI application.
#[derive(Debug, Clone, PartialEq)]
pub enum ExecutionMode {
    /// Interactive REPL mode (default)
    Interactive,
    /// Non-interactive single prompt mode
    NonInteractive { prompt: String, options: NonInteractiveOptions },
}

/// Configuration options for non-interactive mode.
#[derive(Debug, Clone, Copy, PartialEq, Eq)]
pub struct NonInteractiveOptions {
    pub quiet: bool,
    pub json: bool,
    pub no_stream: bool,
    pub verbose: bool,
    pub save_on_interrupt: bool,
}

/// Which of the standard streams are terminals.
#[derive(Debug, Clone, Copy, PartialEq, Eq)]
pub struct TerminalState {
    pub stdin_is_terminal: bool,
    pub stdout_is_terminal: bool,
    pub stderr_is_terminal: bool,
}

/// Mathematical model of `ExecutionMode`.
pub enum ModeView {
    Interactive,
    NonInteractive { prompt: Seq<char>, options: NonInteractiveOptions },
}

impl View for ExecutionMode {
    type V = ModeView;

    open spec fn view(&self) -> ModeView {
        match self {
            ExecutionMode::Interactive => ModeView::Interactive,
            ExecutionMode::NonInteractive { prompt, options } => ModeView::NonInteractive {
                prompt: prompt@,
                options: *options,
            },
        }
    }
}

impl NonInteractiveOptions {
    pub fn new(quiet: bool, json: bool, no_stream: bool, verbose: bool, save_on_interrupt: bool) -> (r:
        Self)
        ensures
            r == (NonInteractiveOptions { quiet, json, no_stream, verbose, save_on_interrupt }),
    {
        NonInteractiveOptions { quiet, json, no_stream, verbose, save_on_interrupt }
    }
}

/// Mode detector for determining execution mode based on arguments and stdin.
pub struct ModeDetector;

/// Output goes to something other than a terminal.
pub open spec fn stdout_redirected(t: TerminalState) -> bool {
    !t.stdout_is_terminal
}

/// The view of an optional string.
pub open spec fn opt_view(o: Option<String>) -> Option<Seq<char>> {
    match o {
        Some(s) => Some(s@),
        None => None,
    }
}

/// The view of an optional string slice.
pub open spec fn opt_str_view(o: Option<&str>) -> Option<Seq<char>> {
    match o {
        Some(s) => Some(s@),
        None => None,
    }
}

/// The prompt argument with piped input appended on a line of its own (no
/// newline when the argument is empty).
pub open spec fn joined_prompt(p: Seq<char>, input: Option<Seq<char>>) -> Seq<char> {
    match input {
        None => p,
        Some(x) => if p.len() > 0 {
            p + seq!['\n'] + x
        } else {
            x
        },
    }
}

/// The mode for the arguments, the text read from standard input (if any)
/// and the terminal state: a prompt argument or piped input means a single
/// prompt, quiet when asked or when output is redirected; else the
/// interactive session.
pub open spec fn spec_mode(
    prompt_arg: Option<Seq<char>>,
    quiet: bool,
    json: bool,
    no_stream: bool,
    verbose: bool,
    save_on_interrupt: bool,
    input: Option<Seq<char>>,
    t: TerminalState,
) -> ModeView {
    let options = NonInteractiveOptions {
        quiet: quiet || stdout_redirected(t),
        json,
        no_stream,
        verbose,
        save_on_interrupt,
    };
    match prompt_arg {
        Some(p) => ModeView::NonInteractive { prompt: joined_prompt(p, input), options },
        None => match input {
            Some(x) => ModeView::NonInteractive { prompt: x, options },
            None => ModeView::Interactive,
        },
    }
}

pub open spec fn stdin_binary_message() -> Seq<char> {
    "Stdin contains binary or non-UTF8 data. Please provide text content only."@
}

pub open spec fn stdin_invalid_message() -> Seq<char> {
    "Stdin contains invalid UTF-8 sequences"@
}

/// What a piped standard input yields: nothing when empty, an error for
/// binary content or replacement characters, else the text without
/// trailing whitespace.
pub open spec fn spec_stdin(b: Seq<char>) -> Result<Option<Seq<char>>, Seq<char>> {
    if b.len() == 0 {
        Ok(None)
    } else if has_binary_char(b) {
        Err(stdin_binary_message())
    } else if b.contains('\u{FFFD}') {
        Err(stdin_invalid_message())
    } else {
        Ok(Some(trim_end(b)))
    }
}

/// Piped input above this many bytes draws a warning.
pub const LARGE_STDIN_BYTES: usize = 1_048_576;

pub open spec fn large_stdin_text(n: nat) -> Seq<char> {
    "Warning: Stdin input is large ("@ + decimal(n) + " bytes)"@
}

impl ModeDetector {
    /// Determines the execution mode. `stdin` is the outcome of reading
    /// standard input (`Ok(None)` when it is a terminal or empty); a failed
    /// read fails detection with the same message.
    pub fn detect_mode(
        prompt_arg: Option<&str>,
        quiet: bool,
        json: bool,
        no_stream: bool,
        verbose: bool,
        save_on_interrupt: bool,
        stdin: Result<Option<String>, String>,
        terminal: &TerminalState,
    ) -> (r: Result<ExecutionMode, String>)
        ensures
            match stdin {
                Ok(input) => (r matches Ok(m) && m@ == spec_mode(
                    opt_str_view(prompt_arg),
                    quiet,
                    json,
                    no_stream,
                    verbose,
                    save_on_interrupt,
                    opt_view(input),
                    *terminal,
                )),
                Err(e) => (r matches Err(x) && x@ == e@),
            },
    {
        let input = match stdin {
            Ok(input) => input,
            Err(e) => {
                return Err(e);
            },
        };
        let options = NonInteractiveOptions::new(
            quiet || Self::should_auto_quiet(terminal),
            json,
            no_stream,
            verbose,
            save_on_interrupt,
        );
        match prompt_arg {
            Some(prompt) => {
                let mut full_prompt = String::new();
                push_str(&mut full_prompt, prompt);
                match input {
                    Some(content) => {
                        let v = chars_of(prompt);
                        if v.len() > 0 {
                            push_str(&mut full_prompt, "\n");
                            proof {
                                reveal_strlit("\n");
                                assert(full_prompt@ =~= prompt@ + seq!['\n']);
                            }
                            push_string(&mut full_prompt, &content);
                        } else {
                            push_string(&mut full_prompt, &content);
                            assert(full_prompt@ =~= content@);
                        }
                    },
                    None => {},
                }
                Ok(ExecutionMode::NonInteractive { prompt: full_prompt, options })
            },
            None => match input {
                Some(content) => Ok(ExecutionMode::NonInteractive { prompt: content, options }),
                None => Ok(ExecutionMode::Interactive),
            },
        }
    }

    /// Whether quiet mode is enabled on its own: output is not a terminal.
    pub fn should_auto_quiet(terminal: &TerminalState) -> (b: bool)
        ensures
            b == stdout_redirected(*terminal),
    {
        !terminal.stdout_is_terminal
    }

    /// Whether stdout is redirected (not a terminal).
    pub fn is_stdout_redirected(terminal: &TerminalState) -> (b: bool)
        ensures
            b == stdout_redirected(*terminal),
    {
        !terminal.stdout_is_terminal
    }

    /// Whether stderr is redirected (not a terminal).
    pub fn is_stderr_redirected(terminal: &TerminalState) -> (b: bool)
        ensures
            b == !terminal.stderr_is_terminal,
    {
        !terminal.stderr_is_terminal
    }

    /// Whether we are in a pipe chain: stdout is not a terminal.
    pub fn is_piped(terminal: &TerminalState) -> (b: bool)
        ensures
            b == stdout_redirected(*terminal),
    {
        Self::is_stdout_redirected(terminal)
    }

    /// What the text read from a piped standard input yields as a prompt.
    pub fn process_stdin_buffer(buffer: &str) -> (r: Result<Option<String>, String>)
        ensures
            match spec_stdin(buffer@) {
                Ok(None) => r matches Ok(None),
                Ok(Some(x)) => (r matches Ok(Some(y)) && y@ == x),
                Err(e) => (r matches Err(m) && m@ == e),
            },
    {
        let v = chars_of(buffer);
        if v.len() == 0 {
            return Ok(None);
        }
        if any_binary_char(&v) {
            return Err(
                "Stdin contains binary or non-UTF8 data. Please provide text content only.".to_owned(),
            );
        }
        if has_char(&v, '\u{FFFD}') {
            return Err("Stdin contains invalid UTF-8 sequences".to_owned());
        }
        let j = trim_end_bound(&v);
        Ok(Some(string_from_range(&v, 0, j)))
    }

    /// The warning for a large piped input, if it is one.
    pub fn stdin_size_warning(buffer: &str) -> (r: Option<String>)
        requires
            byte_len(buffer@) <= usize::MAX,
        ensures
            match r {
                Some(w) => byte_len(buffer@) > LARGE_STDIN_BYTES && w@ == large_stdin_text(
                    byte_len(buffer@),
                ),
                None => byte_len(buffer@) <= LARGE_STDIN_BYTES,
            },
    {
        let n = str_len(buffer);
        if n > LARGE_STDIN_BYTES {
            let mut w = String::new();
            push_str(&mut w, "Warning: Stdin input is large (");
            let digits = u64_to_string(n as u64);
            push_string(&mut w, &digits);
            push_str(&mut w, " bytes)");
            Some(w)
        } else {
            None
        }
    }

    /// Whether content contains binary data: a control character other than
    /// newline, tab and carriage return.
    pub fn contains_binary_content(content: &str) -> (b: bool)
        ensures
            b == has_binary_char(content@),
    {
        let v = chars_of(content);
        any_binary_char(&v)
    }
}

/// A prompt argument always means a single prompt, whose text starts with
/// the argument; the options are those given, quiet added when output is
/// redirected. Without a prompt argument and without piped input the
/// session is interactive.
pub proof fn law_prompt_argument_selects_single_prompt(
    p: Seq<char>,
    quiet: bool,
    json: bool,
    no_stream: bool,
    verbose: bool,
    save_on_interrupt: bool,
    input: Option<Seq<char>>,
    t: TerminalState,
)
    ensures
        spec_mode(Some(p), quiet, json, no_stream, verbose, save_on_interrupt, input, t) matches
            ModeView::NonInteractive { prompt, options } && prompt.take(p.len() as int) == p
            && options == (NonInteractiveOptions {
            quiet: quiet || stdout_redirected(t),
            json,
            no_stream,
            verbose,
            save_on_interrupt,
        }),
        spec_mode(Some(p), quiet, json, no_stream, verbose, save_on_interrupt, None, t)
            matches ModeView::NonInteractive { prompt, .. } && prompt == p,
        spec_mode(None, quiet, json, no_stream, verbose, save_on_interrupt, None, t)
            == ModeView::Interactive,
{
    match input {
        Some(x) => {
            if p.len() > 0 {
                assert((p + seq!['\n'] + x).take(p.len() as int) =~= p);
            } else {
                assert(x.take(0) =~= p);
            }
        },
        None => {
            assert(p.take(p.len() as int) =~= p);
        },
    }
}

/// Piped input alone is the prompt.
pub proof fn law_piped_input_is_the_prompt(
    x: Seq<char>,
    quiet: bool,
    json: bool,
    no_stream: bool,
    verbose: bool,
    save_on_interrupt: bool,
    t: TerminalState,
)
    ensures
        spec_mode(None, quiet, json, no_stream, verbose, save_on_interrupt, Some(x), t) matches
            ModeView::NonInteractive { prompt, .. } && prompt == x,
{
}

/// Accepted piped input is never binary, and carries no trailing whitespace.
pub proof fn law_accepted_stdin_is_text(b: Seq<char>)
    ensures
        spec_stdin(b) matches Ok(Some(x)) ==> !has_binary_char(x) && trim_end(x) == x,
{
    match spec_stdin(b) {
        Ok(Some(x)) => {
            let j = crate::text::back_ws_from(b, b.len() as int);
            crate::text::lemma_back_ws_from(b, b.len() as int);
            assert forall|i: int| 0 <= i < x.len() implies !crate::text::is_binary_char(
                #[trigger] x[i],
            ) by {
                assert(x[i] == b[i]);
            }
            crate::text::lemma_back_ws_from(x, x.len() as int);
            if x.len() > 0 {
                assert(x[x.len() - 1] == b[j - 1]);
            }
            assert(crate::text::back_ws_from(x, x.len() as int) == x.len());
            assert(x.subrange(0, x.len() as int) =~= x);
        },
        _ => {},
    }
}

/// When standard output is not a terminal, a single-prompt run is always
/// quiet, and otherwise quiet exactly when asked; the other options are
/// always those given.
pub proof fn law_redirected_output_is_quiet(
    prompt_arg: Option<Seq<char>>,
    quiet: bool,
    json: bool,
    no_stream: bool,
    verbose: bool,
    save_on_interrupt: bool,
    input: Option<Seq<char>>,
    t: TerminalState,
)
    ensures
        spec_mode(prompt_arg, quiet, json, no_stream, verbose, save_on_interrupt, input, t) matches
            ModeView::NonInteractive { options, .. } ==> (stdout_redirected(t) ==> options.quiet)
            && (!stdout_redirected(t) ==> options.quiet == quiet) && options.json == json
            && options.no_stream == no_stream && options.verbose == verbose
            && options.save_on_interrupt == save_on_interrupt,
{
}

} // verus!
