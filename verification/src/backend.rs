//! The Ollama backend: the client settings, the decoding of a streamed
//! generation (newline-delimited JSON) and the reading of model lists. The
//! HTTP exchanges themselves are made by the caller.
use vstd::prelude::*;
use crate::text::{
    chars_of, next_char, lemma_next_char, find_char, push_str, push_string, string_from_range,
    trim, trim_bounds, u64_to_string, decimal, sub_vec,
};

use crate::url_validator::{error_message, spec_validate, UrlValidator};
use crate::output::{compact_json, compact_json_object, members_view, JsonMember, JsonScalar, MemberView, ScalarView};
use serde_json::Value as SerdeValue;

verus! {

#[verifier::external_type_specification]
#[verifier::external_body]
pub struct ExHttpClient(reqwest::Client);

#[verifier::external_type_specification]
#[verifier::external_body]
pub struct ExHttpError(reqwest::Error);

#[verifier::external_type_specification]
#[verifier::external_body]
pub struct ExJsonValue(serde_json::Value);

/// Response from Ollama's /api/tags endpoint.
#[derive(Debug, Clone)]
pub struct OllamaModel {
    pub name: String,
    pub modified_at: String,
    pub size: u64,
}

#[derive(Debug, Clone)]
pub struct OllamaModelsResponse {
    pub models: Vec<OllamaModel>,
}

/// A JSON document, as the logic reads it (numbers kept as their text).
#[derive(Debug)]
pub enum JsonValue {
    Null,
    Bool(bool),
    Number(String),
    Str(String),
    Array(Vec<JsonValue>),
    Object(Vec<(String, JsonValue)>),
}

/// Backend client for communicating with Ollama instances.
pub struct BackendClient {
    client: reqwest::Client,
    base_url: String,
    timeout: core::time::Duration,
}

/// What `std::time::Duration::from_secs` gives for a number of seconds.
pub uninterp spec fn duration_from_secs(secs: u64) -> core::time::Duration;

/// `std::time::Duration::from_secs`: the contract names the result after
/// the seconds.
#[verifier::external_body]
fn duration_of(secs: u64) -> (d: core::time::Duration)
    ensures
        d == duration_from_secs(secs),
{
    core::time::Duration::from_secs(secs)
}

/// Builds an HTTP client with a request timeout, with
/// `reqwest::ClientBuilder::build`. Nothing is claimed of the outcome.
#[verifier::external_body]
fn build_http_client(timeout: core::time::Duration) -> (r: Result<reqwest::Client, reqwest::Error>) {
    reqwest::Client::builder().timeout(timeout).build()
}

/// `s` without its trailing copies of `c` (`str::trim_end_matches`).
pub open spec fn trim_end_char(s: Seq<char>, c: char) -> Seq<char>
    decreases s.len(),
{
    if s.len() > 0 && s.last() == c {
        trim_end_char(s.drop_last(), c)
    } else {
        s
    }
}

pub(crate) fn trim_end_char_exec(s: &str, c: char) -> (r: String)
    ensures
        r@ == trim_end_char(s@, c),
{
    let v = chars_of(s);
    let mut j = v.len();
    assert(v@.subrange(0, v@.len() as int) =~= v@);
    while j > 0 && v[j - 1] == c
        invariant
            j <= v.len(),
            trim_end_char(v@, c) == trim_end_char(v@.subrange(0, j as int), c),
        decreases j,
    {
        assert(v@.subrange(0, j as int).drop_last() =~= v@.subrange(0, j - 1));
        j = j - 1;
    }
    assert(v@.subrange(0, v@.len() as int) =~= v@);
    string_from_range(&v, 0, j)
}

pub open spec fn client_failure_text() -> Seq<char> {
    "Failed to create HTTP client"@
}

impl BackendClient {
    pub closed spec fn spec_base_url(&self) -> Seq<char> {
        self.base_url@
    }

    pub closed spec fn spec_timeout(&self) -> core::time::Duration {
        self.timeout
    }

    pub closed spec fn spec_client(&self) -> reqwest::Client {
        self.client
    }

    /// A client for the backend at `base_url` (without trailing slashes)
    /// whose requests time out after `timeout_seconds`. A URL that fails
    /// validation (remote without HTTPS, malformed, empty) is refused with the
    /// validation error's explanation; building the HTTP client may fail.
    pub fn new(base_url: String, timeout_seconds: u64) -> (r: Result<Self, String>)
        ensures
            spec_validate(base_url@) matches Err(v) ==> (r matches Err(e) && e@ == error_message(v)),
            spec_validate(base_url@) is Ok ==> match r {
                Ok(c) => c.spec_base_url() == trim_end_char(base_url@, '/') && c.spec_timeout()
                    == duration_from_secs(timeout_seconds),
                Err(e) => e@ == client_failure_text(),
            },
    {
        match UrlValidator::validate_backend_url(base_url.as_str()) {
            Err(v) => {
                return Err(v.to_string());
            },
            Ok(()) => {},
        }
        let timeout = duration_of(timeout_seconds);
        match build_http_client(timeout) {
            Ok(client) => Ok(Self::with_client(client, base_url, timeout_seconds)),
            Err(_) => Err("Failed to create HTTP client".to_owned()),
        }
    }

    /// A client around an HTTP client that was built already.
    pub fn with_client(client: reqwest::Client, base_url: String, timeout_seconds: u64) -> (r: Self)
        ensures
            r.spec_client() == client,
            r.spec_base_url() == trim_end_char(base_url@, '/'),
            r.spec_timeout() == duration_from_secs(timeout_seconds),
    {
        BackendClient {
            client,
            base_url: trim_end_char_exec(base_url.as_str(), '/'),
            timeout: duration_of(timeout_seconds),
        }
    }

    /// The HTTP client that requests go through.
    pub fn http(&self) -> (r: &reqwest::Client)
        ensures
            *r == self.spec_client(),
    {
        &self.client
    }

    /// Get the base URL of this client.
    pub fn base_url(&self) -> (r: &str)
        ensures
            r@ == self.spec_base_url(),
    {
        self.base_url.as_str()
    }

    /// Get the timeout duration.
    pub fn timeout(&self) -> (r: core::time::Duration)
        ensures
            r == self.spec_timeout(),
    {
        self.timeout
    }
}

// ---------------------------------------------------------------------------
// Error messages of the HTTP exchanges
// ---------------------------------------------------------------------------

pub open spec fn status_error_text(status: u16, body: Seq<char>) -> Seq<char> {
    "Backend returned error status: "@ + decimal(status as nat) + " - "@ + body
}

pub open spec fn connect_error_text(base_url: Seq<char>) -> Seq<char> {
    "Failed to connect to "@ + base_url
}

/// The error for a response with a failure status.
pub fn status_error(status: u16, body: &str) -> (r: String)
    ensures
        r@ == status_error_text(status, body@),
{
    let mut e = String::new();
    push_str(&mut e, "Backend returned error status: ");
    push_string(&mut e, &u64_to_string(status as u64));
    push_str(&mut e, " - ");
    push_str(&mut e, body);
    e
}

/// The error for a request that could not reach the backend.
pub fn connect_error(base_url: &str) -> (r: String)
    ensures
        r@ == connect_error_text(base_url@),
{
    let mut e = String::new();
    push_str(&mut e, "Failed to connect to ");
    push_str(&mut e, base_url);
    e
}

// ---------------------------------------------------------------------------
// The generation request
// ---------------------------------------------------------------------------

/// The JSON object of a generation request: the model, the prompt,
/// streaming asked for, and, when a token limit is given, the generation
/// option `num_predict` that carries it.
pub open spec fn generate_request(model: Seq<char>, prompt: Seq<char>, max_tokens: Option<u32>) -> Seq<
    (Seq<char>, MemberView),
> {
    let base = seq![
        ("model"@, MemberView::Scalar(ScalarView::Text(model))),
        ("prompt"@, MemberView::Scalar(ScalarView::Text(prompt))),
        ("stream"@, MemberView::Scalar(ScalarView::Flag(true))),
    ];
    match max_tokens {
        Some(n) => base.push(
            ("options"@, MemberView::Object(seq![("num_predict"@, ScalarView::Count(n as nat))])),
        ),
        None => base,
    }
}

/// The body of a generation request, as `serde_json` prints it.
pub fn generate_request_body(model: &str, prompt: &str, max_tokens: Option<u32>) -> (r: String)
    ensures
        r@ == compact_json_object(generate_request(model@, prompt@, max_tokens)),
{
    let mut doc: Vec<(String, JsonMember)> = Vec::new();
    doc.push(("model".to_owned(), JsonMember::Scalar(JsonScalar::Text(model.to_owned()))));
    doc.push(("prompt".to_owned(), JsonMember::Scalar(JsonScalar::Text(prompt.to_owned()))));
    doc.push(("stream".to_owned(), JsonMember::Scalar(JsonScalar::Flag(true))));
    match max_tokens {
        Some(n) => {
            let mut options: Vec<(String, JsonScalar)> = Vec::new();
            options.push(("num_predict".to_owned(), JsonScalar::Count(n as usize)));
            assert(crate::output::fields_view(options@) =~= seq![
                ("num_predict"@, ScalarView::Count(n as nat)),
            ]);
            doc.push(("options".to_owned(), JsonMember::Object(options)));
        },
        None => {},
    }
    assert(members_view(doc@) =~= generate_request(model@, prompt@, max_tokens));
    match compact_json(&doc) {
        Ok(body) => body,
        Err(_) => {
            proof {
                assert(false);
            }
            String::new()
        },
    }
}

/// The prompt is sent as given, under `prompt`, with the model as given
/// under `model`; the request always asks for a stream, and carries a given
/// token limit as the option `num_predict`.
pub proof fn law_prompt_sent_as_given(model: Seq<char>, prompt: Seq<char>, max_tokens: Option<u32>)
    ensures
        generate_request(model, prompt, max_tokens).contains(
            ("prompt"@, MemberView::Scalar(ScalarView::Text(prompt))),
        ),
        generate_request(model, prompt, max_tokens).contains(
            ("model"@, MemberView::Scalar(ScalarView::Text(model))),
        ),
        generate_request(model, prompt, max_tokens).contains(
            ("stream"@, MemberView::Scalar(ScalarView::Flag(true))),
        ),
        max_tokens matches Some(n) ==> generate_request(model, prompt, max_tokens).contains(
            ("options"@, MemberView::Object(seq![("num_predict"@, ScalarView::Count(n as nat))])),
        ),
{
    let r = generate_request(model, prompt, max_tokens);
    assert(r[0] == ("model"@, MemberView::Scalar(ScalarView::Text(model))));
    assert(r[1] == ("prompt"@, MemberView::Scalar(ScalarView::Text(prompt))));
    assert(r[2] == ("stream"@, MemberView::Scalar(ScalarView::Flag(true))));
    if let Some(n) = max_tokens {
        assert(r[3] == ("options"@, MemberView::Object(seq![("num_predict"@, ScalarView::Count(n as nat))])));
    }
}

// ---------------------------------------------------------------------------
// Streamed generation
// ---------------------------------------------------------------------------

/// A top-level member value of a JSON line, as the stream decoding reads
/// it: a string, a boolean, or anything else.
#[derive(Debug, Clone)]
pub enum LineValue {
    Text(String),
    Flag(bool),
    Other,
}

/// What a line of the stream parses to.
#[derive(Debug, Clone)]
pub enum ParsedLine {
    /// The line is not JSON.
    NotJson,
    /// The line is JSON, but not an object.
    NotObject,
    /// A JSON object, with its members.
    Object(Vec<(String, LineValue)>),
}

/// Mathematical model of `LineValue`.
pub enum LineValueView {
    Text(Seq<char>),
    Flag(bool),
    Other,
}

/// Mathematical model of `ParsedLine`.
pub enum ParsedLineView {
    NotJson,
    NotObject,
    Object(Seq<(Seq<char>, LineValueView)>),
}

pub open spec fn line_value_view(v: LineValue) -> LineValueView {
    match v {
        LineValue::Text(t) => LineValueView::Text(t@),
        LineValue::Flag(b) => LineValueView::Flag(b),
        LineValue::Other => LineValueView::Other,
    }
}

pub open spec fn parsed_line_view(p: ParsedLine) -> ParsedLineView {
    match p {
        ParsedLine::NotJson => ParsedLineView::NotJson,
        ParsedLine::NotObject => ParsedLineView::NotObject,
        ParsedLine::Object(m) => ParsedLineView::Object(
            Seq::new(m@.len(), |i: int| (m@[i].0@, line_value_view(m@[i].1))),
        ),
    }
}

/// What `serde_json::from_str` parses a line into, its top-level members
/// kept with their string and boolean values.
pub uninterp spec fn json_line(line: Seq<char>) -> ParsedLineView;

/// Parses a line with `serde_json::from_str` into a JSON value and turns it
/// into a `ParsedLine`, member for member.
#[verifier::external_body]
fn parse_json_line(line: &str) -> (r: ParsedLine)
    ensures
        parsed_line_view(r) == json_line(line@),
{
    match serde_json::from_str::<SerdeValue>(line) {
        Err(_) => ParsedLine::NotJson,
        Ok(SerdeValue::Object(map)) => ParsedLine::Object(map.into_iter().map(|(k, v)| (k, match v {
            SerdeValue::String(t) => LineValue::Text(t),
            SerdeValue::Bool(b) => LineValue::Flag(b),
            _ => LineValue::Other,
        })).collect()),
        Ok(_) => ParsedLine::NotObject,
    }
}

/// The value of the first member named `key`.
pub open spec fn member(members: Seq<(Seq<char>, LineValueView)>, key: Seq<char>) -> Option<
    LineValueView,
>
    decreases members.len(),
{
    if members.len() == 0 {
        None
    } else if members[0].0 == key {
        Some(members[0].1)
    } else {
        member(members.drop_first(), key)
    }
}

/// What one line of a streamed generation holds, when it is JSON: its
/// `response` text if that is a string, and whether `done` is `true`.
pub open spec fn stream_line_fields(line: Seq<char>) -> Option<(Option<Seq<char>>, bool)> {
    match json_line(line) {
        ParsedLineView::NotJson => None,
        ParsedLineView::NotObject => Some((None, false)),
        ParsedLineView::Object(members) => Some(
            (
                match member(members, "response"@) {
                    Some(LineValueView::Text(t)) => Some(t),
                    _ => None,
                },
                member(members, "done"@) == Some(LineValueView::Flag(true)),
            ),
        ),
    }
}

pub open spec fn opt_string_view(o: Option<String>) -> Option<Seq<char>> {
    match o {
        Some(s) => Some(s@),
        None => None,
    }
}

/// The index of the first member named `key`.
fn find_member(members: &Vec<(String, LineValue)>, key: &str) -> (r: Option<usize>)
    ensures
        ({
            let m = parsed_line_view(ParsedLine::Object(*members))->Object_0;
            match r {
                Some(i) => i < members@.len() && member(m, key@) == Some(m[i as int].1),
                None => member(m, key@) is None,
            }
        }),
{
    let ghost m = parsed_line_view(ParsedLine::Object(*members))->Object_0;
    let mut i: usize = 0;
    assert(m.skip(0) =~= m);
    while i < members.len()
        invariant
            i <= members@.len(),
            m == parsed_line_view(ParsedLine::Object(*members))->Object_0,
            member(m, key@) == member(m.skip(i as int), key@),
        decreases members.len() - i,
    {
        let kv = chars_of(members[i].0.as_str());
        let same = crate::text::eq_str(&kv, key);
        assert(m.skip(i as int)[0] == m[i as int]);
        assert(m.skip(i as int).drop_first() =~= m.skip(i + 1));
        if same {
            return Some(i);
        }
        i = i + 1;
    }
    None
}

/// The `response` text and the `done` flag of a line of the stream; `None`
/// when the line is not JSON.
fn parse_stream_line(line: &str) -> (r: Option<(Option<String>, bool)>)
    ensures
        (match r {
            Some((resp, done)) => Some((opt_string_view(resp), done)),
            None => None,
        }) == stream_line_fields(line@),
{
    match parse_json_line(line) {
        ParsedLine::NotJson => None,
        ParsedLine::NotObject => Some((None, false)),
        ParsedLine::Object(members) => {
            let response = match find_member(&members, "response") {
                Some(i) => match &members[i].1 {
                    LineValue::Text(t) => Some(t.clone()),
                    _ => None,
                },
                None => None,
            };
            let done = match find_member(&members, "done") {
                Some(i) => match &members[i].1 {
                    LineValue::Flag(b) => *b,
                    _ => false,
                },
                None => false,
            };
            Some((response, done))
        },
    }
}

/// Decodes a chunk of the stream with `std::str::from_utf8`: the text
/// when the bytes are valid UTF-8.
#[verifier::external_body]
fn decode_chunk(bytes: &[u8]) -> (r: Option<String>)
    ensures
        r is Some <==> vstd::utf8::valid_utf8(bytes@),
        r matches Some(s) ==> s@ == vstd::utf8::decode_utf8(bytes@),
{
    match std::str::from_utf8(bytes) {
        Ok(s) => Some(s.to_owned()),
        Err(_) => None,
    }
}

/// The state of a streamed generation: text received but not yet ended by
/// a newline, and the response so far.
pub struct StreamDecoder {
    buffer: String,
    full: String,
}

/// What processing the complete lines of a buffer gives: the rest of the
/// buffer, the response so far, the response pieces in order, and whether
/// the generation is done.
pub open spec fn drain_lines(buf: Seq<char>, full: Seq<char>) -> (
    Seq<char>,
    Seq<char>,
    Seq<Seq<char>>,
    bool,
)
    decreases buf.len(),
{
    match next_char(buf, '\n', 0) {
        None => (buf, full, Seq::empty(), false),
        Some(p) => {
            proof {
                lemma_next_char(buf, '\n', 0);
            }
            let line = trim(buf.subrange(0, p));
            let rest = buf.subrange(p + 1, buf.len() as int);
            if line.len() == 0 {
                drain_lines(rest, full)
            } else {
                match stream_line_fields(line) {
                    None => drain_lines(rest, full),
                    Some((resp, done)) => {
                        let full2 = match resp {
                            Some(x) => full + x,
                            None => full,
                        };
                        let here = match resp {
                            Some(x) => seq![x],
                            None => Seq::empty(),
                        };
                        if done {
                            (rest, full2, here, true)
                        } else {
                            let d = drain_lines(rest, full2);
                            (d.0, d.1, here + d.2, d.3)
                        }
                    },
                }
            }
        },
    }
}

/// The views of some strings.
pub open spec fn texts_view(v: Seq<String>) -> Seq<Seq<char>> {
    Seq::new(v.len(), |i: int| v[i]@)
}

pub open spec fn decode_failure_text() -> Seq<char> {
    "Failed to decode stream chunk as UTF-8"@
}

impl StreamDecoder {
    pub closed spec fn buffered(&self) -> Seq<char> {
        self.buffer@
    }

    pub closed spec fn response(&self) -> Seq<char> {
        self.full@
    }

    /// A decoder at the start of a stream.
    pub fn new() -> (r: Self)
        ensures
            r.buffered() == Seq::<char>::empty(),
            r.response() == Seq::<char>::empty(),
    {
        StreamDecoder { buffer: String::new(), full: String::new() }
    }

    /// Takes a chunk of the stream: each complete line that holds JSON with
    /// a `response` string adds a piece to the response, and a line with
    /// `done` ends the generation. Returns the new pieces, in order, and
    /// whether the generation is done; a chunk that is not UTF-8 is an
    /// error.
    pub fn push_chunk(&mut self, bytes: &[u8]) -> (r: Result<(Vec<String>, bool), String>)
        ensures
            !vstd::utf8::valid_utf8(bytes@) ==> (r matches Err(e) && e@ == decode_failure_text()
                && final(self).buffered() == old(self).buffered() && final(self).response()
                == old(self).response()),
            vstd::utf8::valid_utf8(bytes@) ==> ({
                let d = drain_lines(
                    old(self).buffered() + vstd::utf8::decode_utf8(bytes@),
                    old(self).response(),
                );
                &&& r matches Ok((pieces, done))
                &&& texts_view(pieces@) == d.2
                &&& done == d.3
                &&& final(self).buffered() == d.0
                &&& final(self).response() == d.1
            }),
    {
        match decode_chunk(bytes) {
            None => Err("Failed to decode stream chunk as UTF-8".to_owned()),
            Some(text) => {
                push_string(&mut self.buffer, &text);
                Ok(self.drain())
            },
        }
    }

    /// Processes the complete lines of the buffer.
    fn drain(&mut self) -> (r: (Vec<String>, bool))
        ensures
            ({
                let d = drain_lines(old(self).buffered(), old(self).response());
                &&& texts_view(r.0@) == d.2
                &&& r.1 == d.3
                &&& final(self).buffered() == d.0
                &&& final(self).response() == d.1
            }),
    {
        let mut pieces: Vec<String> = Vec::new();
        let v = chars_of(self.buffer.as_str());
        let ghost whole = drain_lines(v@, self.full@);
        let mut pos: usize = 0;
        proof {
            assert(v@.subrange(0, v@.len() as int) =~= v@);
            assert(texts_view(pieces@) + whole.2 =~= whole.2);
        }
        loop
            invariant
                pos <= v.len(),
                whole == drain_lines(old(self).buffered(), old(self).response()),
                ({
                    let part = drain_lines(v@.subrange(pos as int, v@.len() as int), self.full@);
                    &&& whole.0 == part.0
                    &&& whole.1 == part.1
                    &&& whole.2 == texts_view(pieces@) + part.2
                    &&& whole.3 == part.3
                }),
            decreases v.len() - pos,
        {
            let ghost rest = v@.subrange(pos as int, v@.len() as int);
            let ghost full0 = self.full@;
            let ghost before = texts_view(pieces@);
            match find_char(&v, '\n', pos) {
                None => {
                    proof {
                        crate::text::lemma_next_char_shift(v@, '\n', pos as int, 0);
                        assert(drain_lines(rest, full0) == (rest, full0, Seq::<Seq<char>>::empty(), false));
                        assert(before + Seq::<Seq<char>>::empty() =~= before);
                    }
                    self.buffer = string_from_range(&v, pos, v.len());
                    return (pieces, false);
                },
                Some(nl) => {
                    proof {
                        lemma_next_char(v@, '\n', pos as int);
                        crate::text::lemma_next_char_shift(v@, '\n', pos as int, 0);
                        assert(next_char(rest, '\n', 0) == Some((nl - pos) as int));
                        assert(rest.subrange(0, nl - pos) =~= v@.subrange(pos as int, nl as int));
                        assert(rest.subrange(nl - pos + 1, rest.len() as int) =~= v@.subrange(
                            nl + 1,
                            v@.len() as int,
                        ));
                    }
                    let ghost rest2 = v@.subrange(nl + 1, v@.len() as int);
                    let raw = sub_vec(&v, pos, nl);
                    let (a, b) = trim_bounds(&raw);
                    let line = string_from_range(&raw, a, b);
                    pos = nl + 1;
                    if a < b {
                        match parse_stream_line(line.as_str()) {
                            None => {
                                assert(drain_lines(rest, full0) == drain_lines(rest2, full0));
                            },
                            Some((resp, done)) => {
                                let ghost here = match opt_string_view(resp) {
                                    Some(x) => seq![x],
                                    None => Seq::<Seq<char>>::empty(),
                                };
                                match resp {
                                    Some(x) => {
                                        push_string(&mut self.full, &x);
                                        pieces.push(x);
                                        assert(texts_view(pieces@) =~= before + here);
                                    },
                                    None => {
                                        assert(texts_view(pieces@) =~= before + here);
                                    },
                                }
                                if done {
                                    self.buffer = string_from_range(&v, pos, v.len());
                                    assert(drain_lines(rest, full0) == (rest2, self.full@, here, true));
                                    return (pieces, true);
                                }
                                proof {
                                    let d2 = drain_lines(rest2, self.full@);
                                    assert(drain_lines(rest, full0) == (d2.0, d2.1, here + d2.2, d2.3));
                                    assert(before + (here + d2.2) =~= texts_view(pieces@) + d2.2);
                                }
                            },
                        }
                    } else {
                        assert(drain_lines(rest, full0) == drain_lines(rest2, full0));
                    }
                },
            }
        }
    }

    /// The response received, when the stream ends.
    pub fn finish(self) -> (r: String)
        ensures
            r@ == self.response(),
    {
        self.full
    }
}

// ---------------------------------------------------------------------------
// Model lists
// ---------------------------------------------------------------------------

/// The value of `key` in an object's entries (the first one).
/// What `serde_json::from_str` parses a whole reply into, as a `JsonValue`
/// (numbers kept as the text `serde_json` prints for them); `None` when the
/// text is not JSON.
pub uninterp spec fn json_document(text: Seq<char>) -> Option<JsonValue>;

/// Parses a reply with `serde_json::from_str` and turns the value into a
/// `JsonValue`, variant for variant.
#[verifier::external_body]
fn parse_json_document(text: &str) -> (r: Option<JsonValue>)
    ensures
        r == json_document(text@),
{
    serde_json::from_str::<SerdeValue>(text).ok().map(json_value_of)
}

/// Turns a `serde_json::Value` into a `JsonValue`, variant for variant,
/// numbers by the text `serde_json` prints for them.
#[verifier::external_body]
fn json_value_of(v: SerdeValue) -> JsonValue {
    match v {
        SerdeValue::Null => JsonValue::Null,
        SerdeValue::Bool(b) => JsonValue::Bool(b),
        SerdeValue::Number(n) => JsonValue::Number(n.to_string()),
        SerdeValue::String(t) => JsonValue::Str(t),
        SerdeValue::Array(items) => JsonValue::Array(items.into_iter().map(json_value_of).collect()),
        SerdeValue::Object(map) => JsonValue::Object(map.into_iter().map(|(k, x)| (k, json_value_of(x))).collect()),
    }
}

pub open spec fn json_parse_failure_text() -> Seq<char> {
    "Failed to parse JSON response"@
}

/// The model names in a reply of the backend's model list: a reply that
/// is not JSON is refused; otherwise as `model_names` reads the document.
pub fn models_from_body(text: &str) -> (r: Result<Vec<String>, String>)
    ensures
        json_document(text@) is None ==> (r matches Err(m) && m@ == json_parse_failure_text()),
        json_document(text@) matches Some(j) ==> match spec_model_names(j, text@) {
            Ok(names) => (r matches Ok(v) && texts_view(v@) == names),
            Err(e) => (r matches Err(m) && m@ == e),
        },
{
    match parse_json_document(text) {
        None => Err("Failed to parse JSON response".to_owned()),
        Some(j) => model_names(&j, text),
    }
}

pub open spec fn entry(entries: Seq<(String, JsonValue)>, key: Seq<char>) -> Option<JsonValue>
    decreases entries.len(),
{
    if entries.len() == 0 {
        None
    } else if entries[0].0@ == key {
        Some(entries[0].1)
    } else {
        entry(entries.drop_first(), key)
    }
}

/// The value of `key` when `v` is an object (`serde_json::Value::get`).
pub open spec fn get(v: JsonValue, key: Seq<char>) -> Option<JsonValue> {
    match v {
        JsonValue::Object(entries) => entry(entries@, key),
        _ => None,
    }
}

/// The text of a string value.
pub open spec fn as_str(v: Option<JsonValue>) -> Option<Seq<char>> {
    match v {
        Some(JsonValue::Str(s)) => Some(s@),
        _ => None,
    }
}

/// The strings of some values, the others left out.
pub open spec fn strings_of(items: Seq<JsonValue>) -> Seq<Seq<char>>
    decreases items.len(),
{
    if items.len() == 0 {
        Seq::empty()
    } else {
        (match as_str(Some(items[0])) {
            Some(s) => seq![s],
            None => Seq::empty(),
        }) + strings_of(items.drop_first())
    }
}

/// The `id` strings of some values, the others left out.
pub open spec fn ids_of(items: Seq<JsonValue>) -> Seq<Seq<char>>
    decreases items.len(),
{
    if items.len() == 0 {
        Seq::empty()
    } else {
        (match as_str(get(items[0], "id"@)) {
            Some(s) => seq![s],
            None => Seq::empty(),
        }) + ids_of(items.drop_first())
    }
}

/// The name of an Ollama model entry: its `name` string, else its `id`
/// string, else the entry itself when it is a string.
pub open spec fn model_name(v: JsonValue) -> Option<Seq<char>> {
    match as_str(get(v, "name"@)) {
        Some(n) => Some(n),
        None => match as_str(get(v, "id"@)) {
            Some(i) => Some(i),
            None => as_str(Some(v)),
        },
    }
}

pub open spec fn names_of(items: Seq<JsonValue>) -> Seq<Seq<char>>
    decreases items.len(),
{
    if items.len() == 0 {
        Seq::empty()
    } else {
        (match model_name(items[0]) {
            Some(s) => seq![s],
            None => Seq::empty(),
        }) + names_of(items.drop_first())
    }
}

/// The model names a backend lists, in one of three formats: an array of
/// names; OpenAI's `{"data": [{"id": ..}]}`; Ollama's
/// `{"models": [{"name": ..}]}`.
pub open spec fn listed_models(v: JsonValue) -> Option<Seq<Seq<char>>> {
    match v {
        JsonValue::Array(items) => Some(strings_of(items@)),
        _ => match get(v, "data"@) {
            Some(JsonValue::Array(items)) => Some(ids_of(items@)),
            _ => match get(v, "models"@) {
                Some(JsonValue::Array(items)) => Some(names_of(items@)),
                _ => None,
            },
        },
    }
}

pub open spec fn spec_model_names(v: JsonValue, text: Seq<char>) -> Result<Seq<Seq<char>>, Seq<char>> {
    match listed_models(v) {
        None => Err("Unexpected response format: "@ + text),
        Some(names) => if names.len() == 0 {
            Err("No models found in response: "@ + text)
        } else {
            Ok(names)
        },
    }
}

fn lookup<'a>(entries: &'a Vec<(String, JsonValue)>, key: &str) -> (r: Option<&'a JsonValue>)
    ensures
        match r {
            Some(x) => entry(entries@, key@) == Some(*x),
            None => entry(entries@, key@) is None,
        },
{
    let mut i: usize = 0;
    assert(entries@.skip(0) =~= entries@);
    while i < entries.len()
        invariant
            i <= entries@.len(),
            entry(entries@, key@) == entry(entries@.skip(i as int), key@),
        decreases entries.len() - i,
    {
        let ev = chars_of(entries[i].0.as_str());
        let same = crate::text::eq_str(&ev, key);
        assert(entries@.skip(i as int)[0] == entries@[i as int]);
        assert(entries@.skip(i as int).drop_first() =~= entries@.skip(i + 1));
        if same {
            return Some(&entries[i].1);
        }
        i = i + 1;
    }
    None
}

fn get_exec<'a>(v: &'a JsonValue, key: &str) -> (r: Option<&'a JsonValue>)
    ensures
        match r {
            Some(x) => get(*v, key@) == Some(*x),
            None => get(*v, key@) is None,
        },
{
    match v {
        JsonValue::Object(entries) => lookup(entries, key),
        _ => None,
    }
}

fn as_str_exec(v: Option<&JsonValue>) -> (r: Option<String>)
    ensures
        opt_string_view(r) == as_str(
            match v {
                Some(x) => Some(*x),
                None => None,
            },
        ),
{
    match v {
        Some(JsonValue::Str(s)) => Some(s.clone()),
        _ => None,
    }
}

/// Reads the model names out of a backend's reply (`text` is the reply as
/// received, quoted in errors).
pub fn model_names(json: &JsonValue, text: &str) -> (r: Result<Vec<String>, String>)
    ensures
        match spec_model_names(*json, text@) {
            Ok(names) => (r matches Ok(v) && texts_view(v@) == names),
            Err(e) => (r matches Err(m) && m@ == e),
        },
{
    let mut names: Vec<String> = Vec::new();
    match json {
        JsonValue::Array(items) => {
            let mut i: usize = 0;
            assert(items@.skip(0) =~= items@);
            assert(texts_view(names@) + strings_of(items@) =~= strings_of(items@));
            while i < items.len()
                invariant
                    i <= items@.len(),
                    strings_of(items@) == texts_view(names@) + strings_of(items@.skip(i as int)),
                decreases items.len() - i,
            {
                let ghost tail = items@.skip(i as int);
                assert(tail[0] == items@[i as int]);
                assert(tail.drop_first() =~= items@.skip(i + 1));
                let ghost before = texts_view(names@);
                match as_str_exec(Some(&items[i])) {
                    Some(s) => {
                        names.push(s);
                        assert(texts_view(names@) =~= before + seq![names@.last()@]);
                    },
                    None => {},
                }
                i = i + 1;
                assert(texts_view(names@) + strings_of(items@.skip(i as int)) =~= before + strings_of(tail));
            }
            assert(items@.skip(i as int) =~= Seq::<JsonValue>::empty());
            assert(texts_view(names@) + Seq::<Seq<char>>::empty() =~= texts_view(names@));
        },
        _ => {
            match get_exec(json, "data") {
                Some(JsonValue::Array(items)) => {
                    let mut i: usize = 0;
                    assert(items@.skip(0) =~= items@);
                    assert(texts_view(names@) + ids_of(items@) =~= ids_of(items@));
                    while i < items.len()
                        invariant
                            i <= items@.len(),
                            ids_of(items@) == texts_view(names@) + ids_of(items@.skip(i as int)),
                        decreases items.len() - i,
                    {
                        let ghost tail = items@.skip(i as int);
                        assert(tail[0] == items@[i as int]);
                        assert(tail.drop_first() =~= items@.skip(i + 1));
                        let ghost before = texts_view(names@);
                        match as_str_exec(get_exec(&items[i], "id")) {
                            Some(s) => {
                                names.push(s);
                                assert(texts_view(names@) =~= before + seq![names@.last()@]);
                            },
                            None => {},
                        }
                        i = i + 1;
                        assert(texts_view(names@) + ids_of(items@.skip(i as int)) =~= before + ids_of(tail));
                    }
                    assert(items@.skip(i as int) =~= Seq::<JsonValue>::empty());
                    assert(texts_view(names@) + Seq::<Seq<char>>::empty() =~= texts_view(names@));
                },
                _ => {
                    match get_exec(json, "models") {
                        Some(JsonValue::Array(items)) => {
                            let mut i: usize = 0;
                            assert(items@.skip(0) =~= items@);
                            assert(texts_view(names@) + names_of(items@) =~= names_of(items@));
                            while i < items.len()
                                invariant
                                    i <= items@.len(),
                                    names_of(items@) == texts_view(names@) + names_of(
                                        items@.skip(i as int),
                                    ),
                                decreases items.len() - i,
                            {
                                let ghost tail = items@.skip(i as int);
                                assert(tail[0] == items@[i as int]);
                                assert(tail.drop_first() =~= items@.skip(i + 1));
                                let ghost before = texts_view(names@);
                                let item = &items[i];
                                let name = match as_str_exec(get_exec(item, "name")) {
                                    Some(n) => Some(n),
                                    None => match as_str_exec(get_exec(item, "id")) {
                                        Some(x) => Some(x),
                                        None => as_str_exec(Some(item)),
                                    },
                                };
                                match name {
                                    Some(s) => {
                                        names.push(s);
                                        assert(texts_view(names@) =~= before + seq![
                                            names@.last()@,
                                        ]);
                                    },
                                    None => {},
                                }
                                i = i + 1;
                                assert(texts_view(names@) + names_of(items@.skip(i as int))
                                    =~= before + names_of(tail));
                            }
                            assert(items@.skip(i as int) =~= Seq::<JsonValue>::empty());
                            assert(texts_view(names@) + Seq::<Seq<char>>::empty() =~= texts_view(
                                names@,
                            ));
                        },
                        _ => {
                            let mut e = String::new();
                            push_str(&mut e, "Unexpected response format: ");
                            push_str(&mut e, text);
                            return Err(e);
                        },
                    }
                },
            }
        },
    }
    if names.len() == 0 {
        let mut e = String::new();
        push_str(&mut e, "No models found in response: ");
        push_str(&mut e, text);
        return Err(e);
    }
    Ok(names)
}

/// How the stream is cut into chunks does not change what it yields: taking
/// `a` and then `b` gives the same response pieces, response, leftover text
/// and end as taking `a + b` at once; when the generation already ended
/// within `a`, `b` is left unread.
pub proof fn law_chunk_boundaries_do_not_matter(a: Seq<char>, b: Seq<char>, full: Seq<char>)
    ensures
        ({
            let d1 = drain_lines(a, full);
            let d2 = drain_lines(d1.0 + b, d1.1);
            let whole = drain_lines(a + b, full);
            &&& d1.3 ==> whole == (d1.0 + b, d1.1, d1.2, true)
            &&& !d1.3 ==> whole.0 == d2.0 && whole.1 == d2.1 && whole.2 == d1.2 + d2.2
                && whole.3 == d2.3
        }),
    decreases a.len(),
{
    let d1 = drain_lines(a, full);
    match next_char(a, '\n', 0) {
        None => {
            assert(Seq::<Seq<char>>::empty() + drain_lines(a + b, full).2 =~= drain_lines(
                a + b,
                full,
            ).2);
        },
        Some(p) => {
            lemma_next_char(a, '\n', 0);
            crate::text::lemma_next_char_extend(a, b, '\n', 0);
            let ab = a + b;
            assert(ab.subrange(0, p) =~= a.subrange(0, p));
            let rest = a.subrange(p + 1, a.len() as int);
            assert(ab.subrange(p + 1, ab.len() as int) =~= rest + b);
            let line = trim(a.subrange(0, p));
            law_chunk_boundaries_do_not_matter(rest, b, full);
            if line.len() != 0 {
                match stream_line_fields(line) {
                    None => {},
                    Some((resp, done)) => {
                        let full2 = match resp {
                            Some(x) => full + x,
                            None => full,
                        };
                        law_chunk_boundaries_do_not_matter(rest, b, full2);
                        let here = match resp {
                            Some(x) => seq![x],
                            None => Seq::<Seq<char>>::empty(),
                        };
                        if !done {
                            let r1 = drain_lines(rest, full2);
                            let r2 = drain_lines(r1.0 + b, r1.1);
                            assert(here + (r1.2 + r2.2) =~= (here + r1.2) + r2.2);
                        }
                    },
                }
            }
        },
    }
}

/// The response is exactly the pieces handed out, in order: decoding adds
/// to the response what it hands out and nothing else.
pub proof fn law_response_is_its_pieces(buf: Seq<char>, full: Seq<char>)
    ensures
        drain_lines(buf, full).1 == full + drain_lines(buf, full).2.flatten(),
    decreases buf.len(),
{
    match next_char(buf, '\n', 0) {
        None => {
            assert(full + Seq::<Seq<char>>::empty().flatten() =~= full);
        },
        Some(p) => {
            lemma_next_char(buf, '\n', 0);
            let line = trim(buf.subrange(0, p));
            let rest = buf.subrange(p + 1, buf.len() as int);
            law_response_is_its_pieces(rest, full);
            if line.len() != 0 {
                match stream_line_fields(line) {
                    None => {},
                    Some((resp, done)) => {
                        let full2 = match resp {
                            Some(x) => full + x,
                            None => full,
                        };
                        let here = match resp {
                            Some(x) => seq![x],
                            None => Seq::<Seq<char>>::empty(),
                        };
                        law_response_is_its_pieces(rest, full2);
                        here.lemma_flatten_one_element();
                        assert(full2 =~= full + here.flatten());
                        if !done {
                            let d = drain_lines(rest, full2);
                            vstd::seq_lib::lemma_flatten_concat(here, d.2);
                            assert(full2 + d.2.flatten() =~= full + (here + d.2).flatten());
                        }
                    },
                }
            }
        },
    }
}

} // verus!
