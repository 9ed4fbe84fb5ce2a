//! HTTPS-only enforcement for backend URLs.
//!
//! Remote backends must be reached over HTTPS; localhost (the domain
//! `localhost`, IPv4 loopback addresses and `::1`) may use plain HTTP.
use vstd::prelude::*;
use crate::text::{
    chars_of, eq_str, matches_at, push_str, push_string, starts_with, starts_with_str, str_eq,
    string_from_chars, string_from_range, strip_prefixes, trim, trim_bounds,
};
use url::{Host, Url};

verus! {

/// The host of a parsed URL, as plain values.
#[derive(Debug, Clone, PartialEq, Eq)]
pub enum UrlHost {
    Domain(String),
    Ipv4(u8, u8, u8, u8),
    Ipv6(u16, u16, u16, u16, u16, u16, u16, u16),
}

/// What validation reads of a parsed URL: its scheme and its host.
#[derive(Debug, Clone, PartialEq, Eq)]
pub struct ParsedUrl {
    pub scheme: String,
    pub host: Option<UrlHost>,
}

/// Mathematical model of `UrlHost`.
pub enum UrlHostView {
    Domain(Seq<char>),
    Ipv4(u8, u8, u8, u8),
    Ipv6(u16, u16, u16, u16, u16, u16, u16, u16),
}

/// Mathematical model of `ParsedUrl`.
pub struct ParsedUrlView {
    pub scheme: Seq<char>,
    pub host: Option<UrlHostView>,
}

impl View for UrlHost {
    type V = UrlHostView;

    open spec fn view(&self) -> UrlHostView {
        match self {
            UrlHost::Domain(d) => UrlHostView::Domain(d@),
            UrlHost::Ipv4(a, b, c, d) => UrlHostView::Ipv4(*a, *b, *c, *d),
            UrlHost::Ipv6(a, b, c, d, e, f, g, h) => UrlHostView::Ipv6(
                *a,
                *b,
                *c,
                *d,
                *e,
                *f,
                *g,
                *h,
            ),
        }
    }
}

impl View for ParsedUrl {
    type V = ParsedUrlView;

    open spec fn view(&self) -> ParsedUrlView {
        ParsedUrlView {
            scheme: self.scheme@,
            host: match self.host {
                Some(h) => Some(h@),
                None => None,
            },
        }
    }
}

pub open spec fn parsed_view(p: Option<ParsedUrl>) -> Option<ParsedUrlView> {
    match p {
        Some(u) => Some(u@),
        None => None,
    }
}

/// What `url::Url::parse` makes of `input`: `None` where it refuses the
/// input, else the scheme and host of the URL.
pub uninterp spec fn url_parse_result(input: Seq<char>) -> Option<ParsedUrlView>;

/// `url::Url::parse`, then `Url::scheme` and `Url::host`.
///
/// Claimed: the result is `url_parse_result(input@)`, a function of the
/// input alone. Nothing is stated of which inputs the WHATWG URL parser
/// accepts, nor of how it normalises scheme and host.
#[verifier::external_body]
fn parse_url(input: &str) -> (r: Option<ParsedUrl>)
    ensures
        parsed_view(r) == url_parse_result(input@),
{
    let u = Url::parse(input).ok()?;
    let host = match u.host() {
        None => None,
        Some(Host::Domain(d)) => Some(UrlHost::Domain(d.to_owned())),
        Some(Host::Ipv4(a)) => { let o = a.octets(); Some(UrlHost::Ipv4(o[0], o[1], o[2], o[3])) },
        Some(Host::Ipv6(a)) => { let s = a.segments(); Some(UrlHost::Ipv6(s[0], s[1], s[2], s[3], s[4], s[5], s[6], s[7])) },
    };
    Some(ParsedUrl { scheme: u.scheme().to_owned(), host })
}

/// Whether a host is local: the domain `localhost`, an IPv4 address in
/// `127.0.0.0/8` (`Ipv4Addr::is_loopback`) or `::1` (`Ipv6Addr::is_loopback`).
pub open spec fn host_is_local(h: Option<UrlHostView>) -> bool {
    match h {
        Some(UrlHostView::Domain(d)) => d == "localhost"@,
        Some(UrlHostView::Ipv4(a, _, _, _)) => a == 127,
        Some(UrlHostView::Ipv6(a, b, c, d, e, f, g, h)) => a == 0 && b == 0 && c == 0 && d == 0
            && e == 0 && f == 0 && g == 0 && h == 1,
        None => false,
    }
}

/// The URL parses and its host is local.
pub open spec fn spec_is_localhost(url: Seq<char>) -> bool {
    match url_parse_result(url) {
        Some(p) => host_is_local(p.host),
        None => false,
    }
}

/// The HTTPS form suggested for a URL.
pub open spec fn spec_suggest_https(url: Seq<char>) -> Seq<char> {
    if starts_with(url, "http://"@) {
        "https://"@ + url.skip(7)
    } else {
        "https://"@ + strip_prefixes(url, "https://"@)
    }
}

/// Mathematical model of `UrlValidationError`.
pub enum UrlValidationErrorView {
    InvalidProtocol { url: Seq<char>, suggested: Seq<char> },
    InvalidFormat { url: Seq<char> },
    EmptyUrl,
}

/// What `validate_backend_url` answers for a URL.
pub open spec fn spec_validate(url: Seq<char>) -> Result<(), UrlValidationErrorView> {
    if trim(url).len() == 0 {
        Err(UrlValidationErrorView::EmptyUrl)
    } else {
        match url_parse_result(url) {
            None => Err(UrlValidationErrorView::InvalidFormat { url }),
            Some(p) => {
                if host_is_local(p.host) {
                    Ok(())
                } else if p.scheme == "https"@ {
                    Ok(())
                } else if p.scheme == "http"@ {
                    Err(
                        UrlValidationErrorView::InvalidProtocol {
                            url,
                            suggested: spec_suggest_https(url),
                        },
                    )
                } else {
                    Err(UrlValidationErrorView::InvalidFormat { url })
                }
            },
        }
    }
}

/// The URL passes validation.
pub open spec fn spec_is_valid(url: Seq<char>) -> bool {
    spec_validate(url) is Ok
}

pub open spec fn validation_view(r: Result<(), UrlValidationError>) -> Result<
    (),
    UrlValidationErrorView,
> {
    match r {
        Ok(()) => Ok(()),
        Err(e) => Err(e@),
    }
}

/// Validation of backend URLs for HTTPS compliance.
pub struct UrlValidator;

impl UrlValidator {
    /// Validates a backend URL: HTTPS for remote hosts, HTTP or HTTPS for
    /// localhost.
    pub fn validate_backend_url(url: &str) -> (r: Result<(), UrlValidationError>)
        ensures
            validation_view(r) == spec_validate(url@),
    {
        let v = chars_of(url);
        let (a, b) = trim_bounds(&v);
        if a == b {
            return Err(UrlValidationError::EmptyUrl);
        }
        let parsed = match parse_url(url) {
            Some(p) => p,
            None => {
                return Err(UrlValidationError::InvalidFormat { url: string_from_chars(&v) });
            },
        };
        if Self::is_localhost_url(url) {
            return Ok(());
        }
        let scheme = chars_of(parsed.scheme.as_str());
        if eq_str(&scheme, "https") {
            Ok(())
        } else if eq_str(&scheme, "http") {
            let suggested = Self::suggest_https_url(url);
            Err(UrlValidationError::InvalidProtocol { url: string_from_chars(&v), suggested })
        } else {
            Err(UrlValidationError::InvalidFormat { url: string_from_chars(&v) })
        }
    }

    /// Whether a URL names localhost (`localhost`, `127.0.0.0/8`, `::1`, any port).
    pub fn is_localhost_url(url: &str) -> (b: bool)
        ensures
            b == spec_is_localhost(url@),
    {
        match parse_url(url) {
            None => false,
            Some(p) => match p.host {
                Some(UrlHost::Domain(d)) => str_eq(d.as_str(), "localhost"),
                Some(UrlHost::Ipv4(a, _, _, _)) => a == 127,
                Some(UrlHost::Ipv6(a, b, c, d, e, f, g, h)) => a == 0 && b == 0 && c == 0 && d
                    == 0 && e == 0 && f == 0 && g == 0 && h == 1,
                None => false,
            },
        }
    }

    /// The HTTPS equivalent of a URL: `http://` replaced by `https://`, or
    /// `https://` put in front of the URL with its leading `https://` removed.
    pub fn suggest_https_url(url: &str) -> (s: String)
        ensures
            s@ == spec_suggest_https(url@),
    {
        let v = chars_of(url);
        let mut out = String::new();
        push_str(&mut out, "https://");
        if starts_with_str(&v, "http://") {
            proof {
                reveal_strlit("http://");
            }
            let rest = string_from_range(&v, 7, v.len());
            push_string(&mut out, &rest);
            assert(v@.subrange(7, v@.len() as int) =~= url@.skip(7));
        } else {
            let p = chars_of("https://");
            let mut i: usize = 0;
            proof {
                reveal_strlit("https://");
                assert(v@.skip(0) =~= v@);
            }
            while matches_at(&v, &p, i)
                invariant
                    i <= v.len(),
                    p@ == "https://"@,
                    p@.len() == 8,
                    strip_prefixes(v@, p@) == strip_prefixes(v@.skip(i as int), p@),
                decreases v.len() - i,
            {
                assert(starts_with(v@.skip(i as int), p@)) by {
                    assert(v@.skip(i as int).subrange(0, 8) =~= v@.subrange(i as int, i + 8));
                }
                assert(v@.skip(i as int).skip(8) =~= v@.skip(i + 8));
                i = i + 8;
            }
            assert(!starts_with(v@.skip(i as int), p@)) by {
                if starts_with(v@.skip(i as int), p@) {
                    assert(v@.skip(i as int).subrange(0, 8) =~= v@.subrange(i as int, i + 8));
                }
            }
            let rest = string_from_range(&v, i, v.len());
            assert(v@.subrange(i as int, v@.len() as int) =~= v@.skip(i as int));
            push_string(&mut out, &rest);
        }
        out
    }

    /// Splits URLs into those that pass validation and those that do not,
    /// each in the order given.
    pub fn filter_valid_urls(urls: Vec<String>) -> (r: (Vec<String>, Vec<String>))
        ensures
            views(r.0@) == valid_part(views(urls@)),
            views(r.1@) == invalid_part(views(urls@)),
    {
        let mut valid: Vec<String> = Vec::new();
        let mut invalid: Vec<String> = Vec::new();
        let mut i: usize = 0;
        while i < urls.len()
            invariant
                i <= urls.len(),
                views(valid@) == valid_part(views(urls@).take(i as int)),
                views(invalid@) == invalid_part(views(urls@).take(i as int)),
            decreases urls.len() - i,
        {
            let url = urls[i].clone();
            let ok = Self::validate_backend_url(url.as_str()).is_ok();
            proof {
                assert(views(urls@).take(i + 1).drop_last() =~= views(urls@).take(i as int));
            }
            if ok {
                valid.push(url);
                assert(views(valid@) =~= valid_part(views(urls@).take(i as int)).push(url@));
            } else {
                invalid.push(url);
                assert(views(invalid@) =~= invalid_part(views(urls@).take(i as int)).push(url@));
            }
            i = i + 1;
        }
        assert(views(urls@).take(urls.len() as int) =~= views(urls@));
        (valid, invalid)
    }
}

/// The characters of each string of a sequence.
pub open spec fn views(v: Seq<String>) -> Seq<Seq<char>> {
    Seq::new(v.len(), |i: int| v[i]@)
}

/// The URLs of `s` that pass validation, in order.
pub open spec fn valid_part(s: Seq<Seq<char>>) -> Seq<Seq<char>>
    decreases s.len(),
{
    if s.len() == 0 {
        Seq::empty()
    } else if spec_is_valid(s.last()) {
        valid_part(s.drop_last()).push(s.last())
    } else {
        valid_part(s.drop_last())
    }
}

/// The URLs of `s` that fail validation, in order.
pub open spec fn invalid_part(s: Seq<Seq<char>>) -> Seq<Seq<char>>
    decreases s.len(),
{
    if s.len() == 0 {
        Seq::empty()
    } else if !spec_is_valid(s.last()) {
        invalid_part(s.drop_last()).push(s.last())
    } else {
        invalid_part(s.drop_last())
    }
}

/// Filtering partitions the URLs: every kept URL passes validation, every
/// removed one fails it, and none is lost or added.
pub proof fn law_filter_partitions(s: Seq<Seq<char>>)
    ensures
        forall|i: int| 0 <= i < valid_part(s).len() ==> spec_is_valid(#[trigger] valid_part(s)[i]),
        forall|i: int|
            0 <= i < invalid_part(s).len() ==> !spec_is_valid(#[trigger] invalid_part(s)[i]),
        valid_part(s).len() + invalid_part(s).len() == s.len(),
    decreases s.len(),
{
    if s.len() > 0 {
        law_filter_partitions(s.drop_last());
        let v = valid_part(s.drop_last());
        let w = invalid_part(s.drop_last());
        if spec_is_valid(s.last()) {
            assert forall|i: int| 0 <= i < valid_part(s).len() implies spec_is_valid(
                #[trigger] valid_part(s)[i],
            ) by {
                if i < v.len() {
                    assert(valid_part(s)[i] == v[i]);
                }
            }
        } else {
            assert forall|i: int| 0 <= i < invalid_part(s).len() implies !spec_is_valid(
                #[trigger] invalid_part(s)[i],
            ) by {
                if i < w.len() {
                    assert(invalid_part(s)[i] == w[i]);
                }
            }
        }
    }
}

/// Every accepted URL is local or uses HTTPS, and every remote HTTP URL is
/// refused with its HTTPS form as the suggestion.
pub proof fn law_remote_requires_https(url: Seq<char>)
    requires
        url_parse_result(url) is Some,
        trim(url).len() > 0,
    ensures
        spec_is_valid(url) ==> spec_is_localhost(url) || url_parse_result(url).unwrap().scheme
            == "https"@,
        !spec_is_localhost(url) && url_parse_result(url).unwrap().scheme == "http"@
            ==> spec_validate(url) == Err::<(), UrlValidationErrorView>(
            UrlValidationErrorView::InvalidProtocol { url, suggested: spec_suggest_https(url) },
        ),
{
    reveal_strlit("http");
    reveal_strlit("https");
    assert("http"@.len() != "https"@.len());
}

/// The suggested form always starts with `https://`.
pub proof fn law_suggestion_is_https(url: Seq<char>)
    ensures
        starts_with(spec_suggest_https(url), "https://"@),
{
    reveal_strlit("https://");
    assert(spec_suggest_https(url).subrange(0, 8) =~= "https://"@);
}

/// Why a URL was refused.
#[derive(Debug, Clone, PartialEq)]
pub enum UrlValidationError {
    /// HTTP used for a remote URL (HTTPS required).
    InvalidProtocol { url: String, suggested: String },
    /// Malformed URL.
    InvalidFormat { url: String },
    /// Empty or whitespace-only URL.
    EmptyUrl,
}

impl View for UrlValidationError {
    type V = UrlValidationErrorView;

    open spec fn view(&self) -> UrlValidationErrorView {
        match self {
            UrlValidationError::InvalidProtocol { url, suggested } => {
                UrlValidationErrorView::InvalidProtocol { url: url@, suggested: suggested@ }
            },
            UrlValidationError::InvalidFormat { url } => UrlValidationErrorView::InvalidFormat {
                url: url@,
            },
            UrlValidationError::EmptyUrl => UrlValidationErrorView::EmptyUrl,
        }
    }
}

/// The example lines that close every validation message.
pub open spec fn examples_text(localhost_note: bool) -> Seq<char> {
    "Examples of valid URLs:\n"@ + "  - https://api.example.com:8080\n"@
        + "  - https://my-ollama-server.com\n"@ + (if localhost_note {
        "  - http://localhost:11434 (localhost only)"@
    } else {
        "  - http://localhost:11434"@
    })
}

/// The text of a validation error.
pub open spec fn error_message(e: UrlValidationErrorView) -> Seq<char> {
    match e {
        UrlValidationErrorView::InvalidProtocol { url, suggested } => "Invalid backend URL protocol\n"@
            + "  Provided: "@ + url + "\n"@ + "  Required: HTTPS protocol for remote endpoints\n"@
            + "  Suggested: "@ + suggested + "\n"@ + "\n"@
            + "Security: Remote connections must use HTTPS to encrypt your prompts and responses.\n"@
            + "\n"@ + examples_text(true),
        UrlValidationErrorView::InvalidFormat { url } => "Invalid URL format: "@ + url + "\n"@
            + "\n"@ + examples_text(false),
        UrlValidationErrorView::EmptyUrl => "Backend URL cannot be empty\n"@ + "\n"@
            + examples_text(false),
    }
}

fn push_examples(s: &mut String, localhost_note: bool)
    ensures
        final(s)@ == old(s)@ + examples_text(localhost_note),
{
    push_str(s, "Examples of valid URLs:\n");
    push_str(s, "  - https://api.example.com:8080\n");
    push_str(s, "  - https://my-ollama-server.com\n");
    if localhost_note {
        push_str(s, "  - http://localhost:11434 (localhost only)");
    } else {
        push_str(s, "  - http://localhost:11434");
    }
}

impl UrlValidationError {
    /// The user-facing explanation of the error.
    pub fn to_string(&self) -> (s: String)
        ensures
            s@ == error_message(self@),
    {
        let mut s = String::new();
        match self {
            UrlValidationError::InvalidProtocol { url, suggested } => {
                push_str(&mut s, "Invalid backend URL protocol\n");
                push_str(&mut s, "  Provided: ");
                push_string(&mut s, url);
                push_str(&mut s, "\n");
                push_str(&mut s, "  Required: HTTPS protocol for remote endpoints\n");
                push_str(&mut s, "  Suggested: ");
                push_string(&mut s, suggested);
                push_str(&mut s, "\n");
                push_str(&mut s, "\n");
                push_str(
                    &mut s,
                    "Security: Remote connections must use HTTPS to encrypt your prompts and responses.\n",
                );
                push_str(&mut s, "\n");
                push_examples(&mut s, true);
            },
            UrlValidationError::InvalidFormat { url } => {
                push_str(&mut s, "Invalid URL format: ");
                push_string(&mut s, url);
                push_str(&mut s, "\n");
                push_str(&mut s, "\n");
                push_examples(&mut s, false);
            },
            UrlValidationError::EmptyUrl => {
                push_str(&mut s, "Backend URL cannot be empty\n");
                push_str(&mut s, "\n");
                push_examples(&mut s, false);
            },
        }
        s
    }
}

/// The outcome of validating one URL, with its context.
#[derive(Debug, Clone)]
pub struct ValidationResult {
    pub is_valid: bool,
    pub error: Option<UrlValidationError>,
    pub is_localhost: bool,
    pub suggested_url: Option<String>,
}

impl ValidationResult {
    /// Validates `url` and records whether it is local and, for a remote
    /// HTTP URL, the suggested HTTPS form.
    pub fn for_url(url: &str) -> (r: ValidationResult)
        ensures
            r.is_valid == spec_is_valid(url@),
            r.is_localhost == spec_is_localhost(url@),
            match spec_validate(url@) {
                Ok(()) => r.error is None && r.suggested_url is None,
                Err(e) => r.error matches Some(x) && x@ == e && match e {
                    UrlValidationErrorView::InvalidProtocol { .. } => r.suggested_url matches Some(
                        s,
                    ) && s@ == spec_suggest_https(url@),
                    _ => r.suggested_url is None,
                },
            },
    {
        let is_localhost = UrlValidator::is_localhost_url(url);
        match UrlValidator::validate_backend_url(url) {
            Ok(()) => ValidationResult {
                is_valid: true,
                error: None,
                is_localhost,
                suggested_url: None,
            },
            Err(error) => {
                let suggested_url = match &error {
                    UrlValidationError::InvalidProtocol { .. } => Some(
                        UrlValidator::suggest_https_url(url),
                    ),
                    _ => None,
                };
                ValidationResult { is_valid: false, error: Some(error), is_localhost, suggested_url }
            },
        }
    }
}

/// Every URL that parses, is not blank, and uses HTTPS is accepted, whatever
/// its host (a name, an IPv4 or an IPv6 address); so is every URL that
/// parses, is not blank and names a local host, whatever its scheme.
pub proof fn law_https_and_local_urls_accepted(url: Seq<char>)
    requires
        trim(url).len() > 0,
        url_parse_result(url) is Some,
    ensures
        url_parse_result(url).unwrap().scheme == "https"@ ==> spec_validate(url) == Ok::<
            (),
            UrlValidationErrorView,
        >(()),
        spec_is_localhost(url) ==> spec_validate(url) == Ok::<(), UrlValidationErrorView>(()),
{
}

} // verus!
