//! Display form of link targets: a URL whose host is written in
//! punycode is shown with its host decoded to Unicode.
use vstd::prelude::*;
use vstd::string::*;
use crate::text::{decimal, push_char, push_decimal_u64, str_eq};

verus! {

/// The parts of a parsed URL that the display form is made of.
#[derive(Debug)]
pub struct ParsedUrl {
    /// The scheme, without the trailing `:`.
    pub scheme: String,
    /// The user name, empty when the URL names none.
    pub username: String,
    /// The password, if the URL names one.
    pub password: Option<String>,
    /// The host, if the URL has one.
    pub host: Option<String>,
    /// The explicit port, if the URL names one that is not its scheme's default.
    pub port: Option<u16>,
    /// The path, without query or fragment.
    pub path: String,
    /// The query, without the leading `?`, if the URL has one.
    pub query: Option<String>,
    /// The fragment, without the leading `#`, if the URL has one.
    pub fragment: Option<String>,
}

/// The view of a text that may be absent.
pub open spec fn opt_str_view(o: Option<String>) -> Option<Seq<char>> {
    match o {
        Some(s) => Some(s@),
        None => None,
    }
}

/// The parts of a URL as plain values: scheme, user name and password,
/// host, port, path, query and fragment.
pub type UrlView = (
    Seq<char>,
    (Seq<char>, Option<Seq<char>>),
    Option<Seq<char>>,
    Option<u16>,
    Seq<char>,
    Option<Seq<char>>,
    Option<Seq<char>>,
);

impl View for ParsedUrl {
    type V = UrlView;

    open spec fn view(&self) -> UrlView {
        (
            self.scheme@,
            (self.username@, opt_str_view(self.password)),
            opt_str_view(self.host),
            self.port,
            self.path@,
            opt_str_view(self.query),
            opt_str_view(self.fragment),
        )
    }
}

/// The view of an optional parse result.
pub open spec fn opt_url_view(o: Option<ParsedUrl>) -> Option<UrlView> {
    match o {
        Some(p) => Some(p@),
        None => None,
    }
}

/// What `url::Url::parse` gives for `input`: `None` when it fails, else the
/// scheme, user name, password, host, port, path, query and fragment of the
/// parsed URL.
pub uninterp spec fn url_parts(input: Seq<char>) -> Option<UrlView>;

/// What `idna::domain_to_unicode` gives for `domain`: the Unicode form and
/// whether the conversion reported no error.
pub uninterp spec fn domain_unicode(domain: Seq<char>) -> (Seq<char>, bool);

/// Parses `input` with `url::Url::parse` and reads its scheme, user name,
/// password, host, port, path, query and fragment. The contract claims only that the result is the one the `url`
/// crate computes for this input (a function of the input alone).
#[verifier::external_body]
fn parse_url(input: &str) -> (r: Option<ParsedUrl>)
    ensures
        opt_url_view(r) == url_parts(input@),
{
    url::Url::parse(input).ok().map(|u| ParsedUrl {
        scheme: u.scheme().to_string(),
        username: u.username().to_string(),
        password: u.password().map(|p| p.to_string()),
        host: u.host_str().map(|h| h.to_string()),
        port: u.port(),
        path: u.path().to_string(),
        query: u.query().map(|q| q.to_string()),
        fragment: u.fragment().map(|f| f.to_string()),
    })
}

/// Converts a domain with `idna::domain_to_unicode`. The contract claims
/// only that the text and the success flag are the ones the `idna` crate
/// computes for this domain.
#[verifier::external_body]
fn domain_to_unicode(domain: &str) -> (r: (String, bool))
    ensures
        (r.0@, r.1) == domain_unicode(domain@),
{
    let (text, result) = idna::domain_to_unicode(domain);
    (text, result.is_ok())
}

/// The port part of a display URL: empty for the default port of `http`
/// and `https` and for no port, else `:` and the port number.
pub open spec fn port_part(scheme: Seq<char>, port: Option<u16>) -> Seq<char> {
    match port {
        Some(p) => if (p == 80 && scheme == "http"@) || (p == 443 && scheme == "https"@) {
            Seq::empty()
        } else {
            seq![':'] + decimal(p as int)
        },
        None => Seq::empty(),
    }
}

/// The user part of a display URL: empty when there is neither a user name
/// nor a password, else the user name, `:` and the password if there is
/// one, and `@`.
pub open spec fn user_part(user: (Seq<char>, Option<Seq<char>>)) -> Seq<char> {
    if user.0.len() == 0 && user.1 is None {
        Seq::empty()
    } else {
        user.0 + match user.1 {
            Some(p) => seq![':'] + p,
            None => Seq::empty(),
        } + seq!['@']
    }
}

/// `mark` and the text, or nothing when there is no text.
pub open spec fn opt_part(mark: char, o: Option<Seq<char>>) -> Seq<char> {
    match o {
        Some(t) => seq![mark] + t,
        None => Seq::empty(),
    }
}

/// The URL with its parts in order and `host` as its host.
pub open spec fn unicode_url(parts: UrlView, host: Seq<char>) -> Seq<char> {
    parts.0 + "://"@ + user_part(parts.1) + host + port_part(parts.0, parts.3) + parts.4
        + opt_part('?', parts.5) + opt_part('#', parts.6)
}

/// The display form of a link target: when the URL parses, has a host, and
/// that host converts to Unicode without error into another text (it was
/// written in punycode), the URL rebuilt with the Unicode host, its query
/// and fragment kept; otherwise the text unchanged.
pub open spec fn url_display(url: Seq<char>) -> Seq<char> {
    match url_parts(url) {
        Some(parts) => match parts.2 {
            Some(host) => if domain_unicode(host).1 && domain_unicode(host).0 != host {
                unicode_url(parts, domain_unicode(host).0)
            } else {
                url
            },
            None => url,
        },
        None => url,
    }
}

/// The port part of a display URL for `scheme` and `port`.
pub fn port_string(scheme: &str, port: Option<u16>) -> (r: String)
    ensures
        r@ == port_part(scheme@, port),
{
    match port {
        Some(p) => {
            if (p == 80 && str_eq(scheme, "http")) || (p == 443 && str_eq(scheme, "https")) {
                String::new()
            } else {
                let mut s = String::from_str(":");
                proof {
                    reveal_strlit(":");
                }
                push_decimal_u64(&mut s, p as u64);
                s
            }
        },
        None => String::new(),
    }
}

/// Appends `mark` and the text, if there is one.
fn push_opt_part(s: &mut String, mark: char, o: &Option<String>)
    ensures
        final(s)@ == old(s)@ + opt_part(mark, opt_str_view(*o)),
{
    match o {
        Some(t) => {
            push_char(s, mark);
            s.append(t.as_str());
        },
        None => {},
    }
}

/// Rebuilds a parsed URL with `host` in place of its host.
pub fn format_unicode_url(parts: &ParsedUrl, host: &str) -> (r: String)
    ensures
        r@ == unicode_url(parts@, host@),
{
    let mut s = String::from_str(parts.scheme.as_str());
    s.append("://");
    proof {
        reveal_strlit("://");
    }
    if parts.username.unicode_len() > 0 || parts.password.is_some() {
        s.append(parts.username.as_str());
        push_opt_part(&mut s, ':', &parts.password);
        push_char(&mut s, '@');
    }
    s.append(host);
    let port = port_string(parts.scheme.as_str(), parts.port);
    s.append(port.as_str());
    s.append(parts.path.as_str());
    push_opt_part(&mut s, '?', &parts.query);
    push_opt_part(&mut s, '#', &parts.fragment);
    s
}

/// Renders the URL with a Unicode host if the URL uses punycode.
pub fn url_punycode(url: &str) -> (r: String)
    ensures
        r@ == url_display(url@),
{
    match parse_url(url) {
        Some(parts) => {
            match &parts.host {
                Some(host) => {
                    let (decoded, ok) = domain_to_unicode(host.as_str());
                    if ok && !str_eq(decoded.as_str(), host.as_str()) {
                        format_unicode_url(&parts, decoded.as_str())
                    } else {
                        String::from_str(url)
                    }
                },
                None => String::from_str(url),
            }
        },
        None => String::from_str(url),
    }
}

} // verus!
