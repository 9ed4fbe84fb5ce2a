//! What a single-prompt run writes once the response is complete: the
//! text for standard output and the lines for standard error, by output
//! format.
use vstd::prelude::*;
use crate::mode::NonInteractiveOptions;
use crate::text::{byte_len, decimal, push_str, push_string, str_len, u64_to_string};
use serde_json::map::Map as JsonMap;
use serde_json::Value;

verus! {

/// Output formatter for the output formats of non-interactive mode.
pub struct OutputFormatter;

/// What to write for a response.
pub struct ResponseOutput {
    /// Text for standard output, written as is.
    pub stdout: String,
    /// Lines for standard error, in order.
    pub stderr_lines: Vec<String>,
    /// Whether standard output is flushed right after the text.
    pub flush: bool,
}

/// A scalar of a JSON document.
#[derive(Debug, Clone)]
pub enum JsonScalar {
    Text(String),
    Count(usize),
    Flag(bool),
}

/// The value of a member of a JSON document: a scalar, or an object of
/// scalars.
#[derive(Debug, Clone)]
pub enum JsonMember {
    Scalar(JsonScalar),
    Object(Vec<(String, JsonScalar)>),
}

/// Mathematical model of `JsonScalar`.
pub enum ScalarView {
    Text(Seq<char>),
    Count(nat),
    Flag(bool),
}

/// Mathematical model of `JsonMember`.
pub enum MemberView {
    Scalar(ScalarView),
    Object(Seq<(Seq<char>, ScalarView)>),
}

pub open spec fn scalar_view(s: JsonScalar) -> ScalarView {
    match s {
        JsonScalar::Text(t) => ScalarView::Text(t@),
        JsonScalar::Count(n) => ScalarView::Count(n as nat),
        JsonScalar::Flag(b) => ScalarView::Flag(b),
    }
}

pub open spec fn fields_view(v: Seq<(String, JsonScalar)>) -> Seq<(Seq<char>, ScalarView)> {
    Seq::new(v.len(), |i: int| (v[i].0@, scalar_view(v[i].1)))
}

pub open spec fn member_view(m: JsonMember) -> MemberView {
    match m {
        JsonMember::Scalar(s) => MemberView::Scalar(scalar_view(s)),
        JsonMember::Object(f) => MemberView::Object(fields_view(f@)),
    }
}

pub open spec fn members_view(v: Seq<(String, JsonMember)>) -> Seq<(Seq<char>, MemberView)> {
    Seq::new(v.len(), |i: int| (v[i].0@, member_view(v[i].1)))
}

/// The text that `serde_json::to_string_pretty` prints for a JSON object
/// with these members (`serde_json` keeps an object's keys sorted).
pub uninterp spec fn pretty_json_object(members: Seq<(Seq<char>, MemberView)>) -> Seq<char>;

/// Prints a JSON object with `serde_json::to_string_pretty`, its members
/// turned into `serde_json` values one for one. The contract claims that
/// printing succeeds (the object's keys are strings, and no value refuses to
/// be printed) and that the text depends on the members alone.
#[verifier::external_body]
fn pretty_json(members: &Vec<(String, JsonMember)>) -> (r: Result<String, String>)
    ensures
        r is Ok,
        r matches Ok(s) ==> s@ == pretty_json_object(members_view(members@)),
{
    let scalar = |s: &JsonScalar| match s {
        JsonScalar::Text(t) => Value::from(t.as_str()),
        JsonScalar::Count(n) => Value::from(*n),
        JsonScalar::Flag(b) => Value::from(*b),
    };
    let member = |m: &JsonMember| match m {
        JsonMember::Scalar(s) => scalar(s),
        JsonMember::Object(f) => Value::Object(f.iter().map(|(k, s)| (k.clone(), scalar(s))).collect()),
    };
    let object: JsonMap<String, Value> = members.iter().map(|(k, m)| (k.clone(), member(m))).collect();
    serde_json::to_string_pretty(&Value::Object(object)).map_err(|e| e.to_string())
}

/// The text that `serde_json::to_string` prints for a JSON object with
/// these members (`serde_json` keeps an object's keys sorted).
pub uninterp spec fn compact_json_object(members: Seq<(Seq<char>, MemberView)>) -> Seq<char>;

/// Prints a JSON object with `serde_json::to_string`, its members turned
/// into `serde_json` values one for one. The contract claims that printing
/// succeeds (the object's keys are strings, and no value refuses to be
/// printed) and that the text depends on the members alone.
#[verifier::external_body]
pub(crate) fn compact_json(members: &Vec<(String, JsonMember)>) -> (r: Result<String, String>)
    ensures
        r is Ok,
        r matches Ok(s) ==> s@ == compact_json_object(members_view(members@)),
{
    let scalar = |s: &JsonScalar| match s {
        JsonScalar::Text(t) => Value::from(t.as_str()),
        JsonScalar::Count(n) => Value::from(*n),
        JsonScalar::Flag(b) => Value::from(*b),
    };
    let member = |m: &JsonMember| match m {
        JsonMember::Scalar(s) => scalar(s),
        JsonMember::Object(f) => Value::Object(f.iter().map(|(k, s)| (k.clone(), scalar(s))).collect()),
    };
    let object: JsonMap<String, Value> = members.iter().map(|(k, m)| (k.clone(), member(m))).collect();
    serde_json::to_string(&Value::Object(object)).map_err(|e| e.to_string())
}

/// The JSON document of a response: the response text, then its metadata
/// (byte length, timestamp, whether it was streamed, the format name).
pub open spec fn response_document(
    response: Seq<char>,
    length: nat,
    timestamp: Seq<char>,
    streaming: bool,
) -> Seq<(Seq<char>, MemberView)> {
    seq![
        ("response"@, MemberView::Scalar(ScalarView::Text(response))),
        ("metadata"@, MemberView::Object(seq![
            ("length"@, ScalarView::Count(length)),
            ("timestamp"@, ScalarView::Text(timestamp)),
            ("streaming"@, ScalarView::Flag(streaming)),
            ("format"@, ScalarView::Text("json"@)),
        ])),
    ]
}

/// The JSON document of a response, as members.
fn response_members(response: &str, length: usize, timestamp: &str, streaming: bool) -> (r: Vec<
    (String, JsonMember),
>)
    ensures
        members_view(r@) == response_document(response@, length as nat, timestamp@, streaming),
{
    let mut meta: Vec<(String, JsonScalar)> = Vec::new();
    meta.push(("length".to_owned(), JsonScalar::Count(length)));
    meta.push(("timestamp".to_owned(), JsonScalar::Text(timestamp.to_owned())));
    meta.push(("streaming".to_owned(), JsonScalar::Flag(streaming)));
    meta.push(("format".to_owned(), JsonScalar::Text("json".to_owned())));
    let mut doc: Vec<(String, JsonMember)> = Vec::new();
    doc.push(("response".to_owned(), JsonMember::Scalar(JsonScalar::Text(response.to_owned()))));
    doc.push(("metadata".to_owned(), JsonMember::Object(meta)));
    proof {
        let m = fields_view(meta@);
        assert(m =~= seq![
            ("length"@, ScalarView::Count(length as nat)),
            ("timestamp"@, ScalarView::Text(timestamp@)),
            ("streaming"@, ScalarView::Flag(streaming)),
            ("format"@, ScalarView::Text("json"@)),
        ]);
        assert(members_view(doc@) =~= response_document(
            response@,
            length as nat,
            timestamp@,
            streaming,
        ));
    }
    doc
}

pub open spec fn json_failure_text() -> Seq<char> {
    "Failed to serialize JSON response"@
}

pub open spec fn json_verbose_text(n: nat) -> Seq<char> {
    "JSON response generated with "@ + decimal(n) + " characters"@
}

pub open spec fn completed_text(n: nat) -> Seq<char> {
    "Response completed: "@ + decimal(n) + " characters"@
}

pub open spec fn bool_text(b: bool) -> Seq<char> {
    if b {
        "true"@
    } else {
        "false"@
    }
}

/// The standard error lines of the default format in verbose mode.
pub open spec fn default_verbose_lines(n: nat, streaming: bool) -> Seq<Seq<char>> {
    seq![completed_text(n), "Output mode: default"@, "Streaming: "@ + bool_text(streaming)]
}

/// Options adjusted to redirection: quiet when output is redirected.
pub open spec fn adjusted(o: NonInteractiveOptions, stdout_redirected: bool) -> NonInteractiveOptions {
    NonInteractiveOptions { quiet: o.quiet || stdout_redirected, ..o }
}

/// The views of some lines.
pub open spec fn lines_view(v: Seq<String>) -> Seq<Seq<char>> {
    Seq::new(v.len(), |i: int| v[i]@)
}

/// What is written for a response in each format. JSON: the document and a
/// newline, and in verbose mode a line on standard error. Quiet: the
/// response alone, flushed. Default: a newline after a streamed response,
/// else the response and a newline; in verbose mode three lines on
/// standard error.
pub open spec fn output_matches(
    out: ResponseOutput,
    response: Seq<char>,
    options: NonInteractiveOptions,
    json_text: Seq<char>,
) -> bool {
    let n = byte_len(response);
    if options.json {
        &&& out.stdout@ == json_text + "\n"@
        &&& lines_view(out.stderr_lines@) == (if options.verbose {
            seq![json_verbose_text(n)]
        } else {
            Seq::empty()
        })
        &&& !out.flush
    } else if options.quiet {
        &&& out.stdout@ == response
        &&& out.stderr_lines@.len() == 0
        &&& out.flush
    } else {
        &&& out.stdout@ == (if !options.no_stream {
            "\n"@
        } else {
            response + "\n"@
        })
        &&& lines_view(out.stderr_lines@) == (if options.verbose {
            default_verbose_lines(n, !options.no_stream)
        } else {
            Seq::empty()
        })
        &&& !out.flush
    }
}

fn line_with_count(before: &str, n: usize, after: &str) -> (r: String)
    ensures
        r@ == before@ + decimal(n as nat) + after@,
{
    let mut s = String::new();
    push_str(&mut s, before);
    let digits = u64_to_string(n as u64);
    push_string(&mut s, &digits);
    push_str(&mut s, after);
    s
}

fn lines_one(a: String) -> (r: Vec<String>)
    ensures
        lines_view(r@) == seq![a@],
{
    let mut v: Vec<String> = Vec::new();
    v.push(a);
    assert(lines_view(v@) =~= seq![a@]);
    v
}

impl OutputFormatter {
    pub fn new() -> (r: Self)
        ensures
            r == OutputFormatter,
    {
        OutputFormatter
    }

    /// What to write for a response under the given options; `timestamp`
    /// is the time to report in JSON metadata.
    pub fn format_response(
        &self,
        response: &str,
        options: &NonInteractiveOptions,
        timestamp: &str,
    ) -> (r: Result<ResponseOutput, String>)
        requires
            byte_len(response@) <= usize::MAX,
        ensures
            options.json ==> (r matches Ok(out) && output_matches(
                out,
                response@,
                *options,
                pretty_json_object(
                    response_document(response@, byte_len(response@), timestamp@, !options.no_stream),
                ),
            )),
            !options.json ==> (r matches Ok(out) && output_matches(
                out,
                response@,
                *options,
                Seq::empty(),
            )),
    {
        let n = str_len(response);
        if options.json {
            let text = pretty_json(&response_members(response, n, timestamp, !options.no_stream));
            self.json_output(text, response, options)
        } else if options.quiet {
            let mut out = String::new();
            push_str(&mut out, response);
            assert(out@ =~= response@);
            Ok(ResponseOutput { stdout: out, stderr_lines: Vec::new(), flush: true })
        } else {
            let mut out = String::new();
            if options.no_stream {
                push_str(&mut out, response);
            }
            push_str(&mut out, "\n");
            let mut lines: Vec<String> = Vec::new();
            if options.verbose {
                lines.push(line_with_count("Response completed: ", n, " characters"));
                lines.push("Output mode: default".to_owned());
                let mut s = String::new();
                push_str(&mut s, "Streaming: ");
                if options.no_stream {
                    push_str(&mut s, "false");
                } else {
                    push_str(&mut s, "true");
                }
                lines.push(s);
                assert(lines_view(lines@) =~= default_verbose_lines(
                    byte_len(response@),
                    !options.no_stream,
                ));
            } else {
                assert(lines_view(lines@) =~= Seq::<Seq<char>>::empty());
            }
            Ok(ResponseOutput { stdout: out, stderr_lines: lines, flush: false })
        }
    }

    /// What to write in JSON format, given what serialising the document
    /// gave.
    pub fn json_output(
        &self,
        json_text: Result<String, String>,
        response: &str,
        options: &NonInteractiveOptions,
    ) -> (r: Result<ResponseOutput, String>)
        requires
            byte_len(response@) <= usize::MAX,
            options.json,
        ensures
            match json_text {
                Ok(t) => (r matches Ok(out) && output_matches(out, response@, *options, t@)),
                Err(_) => (r matches Err(e) && e@ == json_failure_text()),
            },
    {
        match json_text {
            Ok(t) => {
                let mut out = t;
                push_str(&mut out, "\n");
                let lines = if options.verbose {
                    let n = str_len(response);
                    lines_one(line_with_count("JSON response generated with ", n, " characters"))
                } else {
                    let v: Vec<String> = Vec::new();
                    assert(lines_view(v@) =~= Seq::<Seq<char>>::empty());
                    v
                };
                Ok(ResponseOutput { stdout: out, stderr_lines: lines, flush: false })
            },
            Err(_) => Err("Failed to serialize JSON response".to_owned()),
        }
    }

    /// Whether streamed chunks are shown as they arrive: only in the default
    /// format, neither quiet nor JSON.
    pub fn shows_streaming_chunks(&self, options: &NonInteractiveOptions) -> (b: bool)
        ensures
            b == (!options.quiet && !options.json),
    {
        !options.quiet && !options.json
    }

    /// Adjusts the options to redirection: quiet mode is enabled when
    /// standard output is redirected; nothing else changes.
    pub fn adjust_for_redirection(
        &self,
        options: &mut NonInteractiveOptions,
        stdout_redirected: bool,
    )
        ensures
            *final(options) == adjusted(*old(options), stdout_redirected),
    {
        if stdout_redirected && !options.quiet {
            options.quiet = true;
        }
    }
}

impl Default for OutputFormatter {
    fn default() -> (r: Self)
        ensures
            r == OutputFormatter,
    {
        Self::new()
    }
}

/// Quiet output is the response and nothing else: no decoration on
/// standard output and nothing on standard error.
pub proof fn law_quiet_output_is_response_only(
    out: ResponseOutput,
    response: Seq<char>,
    options: NonInteractiveOptions,
    json_text: Seq<char>,
)
    requires
        options.quiet,
        !options.json,
        output_matches(out, response, options, json_text),
    ensures
        out.stdout@ == response,
        out.stderr_lines@.len() == 0,
{
}

/// Verbose information never goes to standard output: with and without
/// verbose mode, standard output gets the same text.
pub proof fn law_verbose_goes_to_stderr(
    a: ResponseOutput,
    b: ResponseOutput,
    response: Seq<char>,
    options: NonInteractiveOptions,
    json_text: Seq<char>,
)
    requires
        output_matches(a, response, options, json_text),
        output_matches(
            b,
            response,
            (NonInteractiveOptions { verbose: !options.verbose, ..options }),
            json_text,
        ),
    ensures
        a.stdout@ == b.stdout@,
{
}

/// Redirection only ever turns quiet mode on, and adjusting twice is the
/// same as adjusting once.
pub proof fn law_redirection_adjustment_idempotent(o: NonInteractiveOptions, redirected: bool)
    ensures
        adjusted(adjusted(o, redirected), redirected) == adjusted(o, redirected),
        o.quiet ==> adjusted(o, redirected).quiet,
        !redirected ==> adjusted(o, redirected) == o,
{
}

} // verus!
