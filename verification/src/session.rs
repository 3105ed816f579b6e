//! The rules of the HTTP session: how URLs are resolved against the base
//! of a service, what `robots.txt` forbids, which statuses are accepted,
//! how `robots.txt` is fetched through redirects, and the session's cookies.
use vstd::prelude::*;
use vstd::string::StringExecFns;
use vstd::utf8::is_ascii_chars;
use crate::config::{first_named_index, lemma_lookup_push_absent, lemma_lookup_update_first, lookup_named, names_distinct};
use crate::cookies::{CookieError, ParsedCookie, SessionCookies, no_cookies};
use crate::text::{chars_of, extend_chars, extend_str, opt_view, string_of};

verus! {

/// The user agent that the session sends and that `robots.txt` is read for.
pub const USER_AGENT: &'static str = "snowchains <https://github.com/wariuni/snowchains>";

/// The user agent is ASCII.
proof fn lemma_user_agent_ascii()
    ensures
        is_ascii_chars(USER_AGENT@),
{
    reveal_strlit("snowchains <https://github.com/wariuni/snowchains>");
}

/// An error of `url::Url::parse`.
#[verifier::external_type_specification]
#[verifier::external_body]
pub struct ExUrlParseError(url::ParseError);

/// The serialization, the host and the path of the URL that
/// `url::Url::parse` reads from a string, or `None` where it fails.
pub uninterp spec fn url_parse(s: Seq<char>) -> Option<(Seq<char>, Option<Seq<char>>, Seq<char>)>;

/// Whether the `robots.txt` text `robots_txt` lets the user agent
/// `user_agent` fetch `path`, as the `robots_txt` crate reads it.
pub uninterp spec fn robots_txt_allows(robots_txt: Seq<char>, user_agent: Seq<char>, path: Seq<char>) -> bool;

/// A parsed URL: its serialization, its host and its path.
#[derive(Debug)]
pub struct ParsedUrl {
    pub serialization: String,
    pub host: Option<String>,
    pub path: String,
}

/// The serialization, the host and the path of a parsed URL.
pub open spec fn url_parts(u: ParsedUrl) -> (Seq<char>, Option<Seq<char>>, Seq<char>) {
    (u.serialization@, opt_view(u.host), u.path@)
}

/// Calls `url::Url::parse` and reads `as_str`, `host_str` and `path` of the
/// URL.  The parts are named by `url_parse`; the path is ASCII, as the
/// documentation of `Url::path` says ("a percent-encoded ASCII string").
#[verifier::external_body]
fn parse_url(s: &str) -> (r: Result<ParsedUrl, url::ParseError>)
    ensures
        match r {
            Ok(u) => url_parse(s@) == Some(url_parts(u)) && is_ascii_chars(u.path@),
            Err(_) => url_parse(s@) is None,
        },
{
    match url::Url::parse(s) {
        Ok(u) => Ok(ParsedUrl {
            serialization: u.as_str().to_owned(),
            host: u.host_str().map(|h| h.to_owned()),
            path: u.path().to_owned(),
        }),
        Err(e) => Err(e),
    }
}

/// Reads `robots_txt` with `robots_txt::Robots::from_str_lossy`, chooses the
/// section for `user_agent` and asks a `robots_txt::SimpleMatcher` of its
/// rules whether `path` may be fetched.  The answer is named by
/// `robots_txt_allows`.  `user_agent` and `path` are ASCII, so that
/// `choose_section`, which slices the user agent at byte offsets, and the
/// matcher, which slices `path` at byte lengths of rules, cannot panic.
#[verifier::external_body]
fn robots_allows(robots_txt: &str, user_agent: &str, path: &str) -> (r: bool)
    requires
        is_ascii_chars(user_agent@),
        is_ascii_chars(path@),
    ensures
        r == robots_txt_allows(robots_txt@, user_agent@, path@),
{
    let robots = robots_txt::Robots::from_str_lossy(robots_txt);
    let matcher = robots_txt::matcher::SimpleMatcher::new(&robots.choose_section(user_agent).rules);
    matcher.check_path(path)
}

/// An HTML document of the `select` crate.
#[verifier::external_type_specification]
#[verifier::external_body]
pub struct ExDocument(select::document::Document);

/// The HTML document that `select::document::Document::from` reads from a text.
pub uninterp spec fn html_of(text: Seq<char>) -> select::document::Document;

/// Calls `select::document::Document::from` on a `&str`, which parses the
/// text as HTML.  The document is named by `html_of`; nothing more is stated
/// of it.
#[verifier::external_body]
fn parse_html(text: &str) -> (d: select::document::Document)
    ensures
        d == html_of(text@),
{
    select::document::Document::from(text)
}

/// The HTML document that the body of a response is read as.
pub fn html_document(text: &str) -> (d: select::document::Document)
    ensures
        d == html_of(text@),
{
    parse_html(text)
}

/// Errors of the HTTP session.
#[derive(Debug)]
pub enum SessionError {
    ParseUrl(String, url::ParseError),
    ForbiddenByRobotsTxt,
    UnexpectedStatusCode(Vec<u16>, u16),
    Cookie(CookieError),
}

/// A decimal digit.
pub open spec fn digit_char(d: nat) -> char {
    ((d % 10) + 48) as char
}

/// `n` written in decimal.
pub open spec fn decimal(n: nat) -> Seq<char>
    decreases n,
{
    if n < 10 {
        seq![digit_char(n)]
    } else {
        decimal(n / 10).push(digit_char(n % 10))
    }
}

/// The character of a decimal digit.
fn digit(d: u64) -> (r: char)
    requires
        d < 10,
    ensures
        r == digit_char(d as nat),
{
    match d {
        0 => '0',
        1 => '1',
        2 => '2',
        3 => '3',
        4 => '4',
        5 => '5',
        6 => '6',
        7 => '7',
        8 => '8',
        _ => '9',
    }
}

/// `n` written in decimal.
pub fn decimal_chars(n: u64) -> (r: Vec<char>)
    ensures
        r@ == decimal(n as nat),
    decreases n,
{
    let c = digit(n % 10);
    if n < 10 {
        let mut v = Vec::new();
        v.push(c);
        v
    } else {
        let mut v = decimal_chars(n / 10);
        v.push(c);
        v
    }
}

/// The scheme, the host and the port that paths of a service are resolved against.
#[derive(Debug)]
pub struct UrlBase {
    pub host: String,
    pub https: bool,
    pub port: Option<u16>,
}

/// The text of a URL resolved against `base`: where it starts with `/`,
/// `http(s)://<host>[:<port>]` followed by it; else itself.
pub open spec fn url_text(base: UrlBase, url: Seq<char>) -> Seq<char> {
    if url.len() > 0 && url[0] == '/' {
        "http"@ + (if base.https { "s"@ } else { Seq::empty() }) + "://"@ + base.host@ + (match base.port {
            Some(p) => ":"@ + decimal(p as nat),
            None => Seq::empty(),
        }) + url
    } else {
        url
    }
}

/// `r` is the result of parsing `text` as a URL.
pub open spec fn parsed_as(text: Seq<char>, r: Result<ParsedUrl, SessionError>) -> bool {
    match url_parse(text) {
        Some(parts) => r matches Ok(u) && url_parts(u) == parts && is_ascii_chars(u.path@),
        None => r matches Err(SessionError::ParseUrl(t, _)) && t@ == text,
    }
}

/// Parses `text` as a URL.
fn parse_url_text(text: String) -> (r: Result<ParsedUrl, SessionError>)
    ensures
        parsed_as(text@, r),
{
    match parse_url(text.as_str()) {
        Ok(u) => Ok(u),
        Err(e) => Err(SessionError::ParseUrl(text, e)),
    }
}

impl UrlBase {
    /// A base.
    pub fn new(host: String, https: bool, port: Option<u16>) -> (r: UrlBase)
        ensures
            r.host == host,
            r.https == https,
            r.port == port,
    {
        UrlBase { host, https, port }
    }

    /// Resolves a URL that is relative (starting with `/`) or absolute.
    pub fn with(&self, relative_or_absolute_url: &str) -> (r: Result<ParsedUrl, SessionError>)
        ensures
            parsed_as(url_text(*self, relative_or_absolute_url@), r),
    {
        let u = chars_of(relative_or_absolute_url);
        if u.len() > 0 && u[0] == '/' {
            let mut t = chars_of("http");
            if self.https {
                extend_str(&mut t, "s");
            }
            extend_str(&mut t, "://");
            extend_str(&mut t, self.host.as_str());
            if let Some(p) = self.port {
                extend_str(&mut t, ":");
                extend_chars(&mut t, &decimal_chars(p as u64));
            }
            extend_chars(&mut t, &u);
            assert(t@ =~= url_text(*self, relative_or_absolute_url@));
            parse_url_text(string_of(&t))
        } else {
            parse_url_text(String::from_str(relative_or_absolute_url))
        }
    }
}

/// The colour a status is echoed in.
#[derive(Clone, Copy, Debug, PartialEq, Eq, Structural)]
pub enum Palette {
    Plain,
    Url,
    Success,
    Fatal,
}

/// The statuses accepted by default: 200 for GET.
pub fn get_statuses() -> (r: Vec<u16>)
    ensures
        r@ == seq![200u16],
{
    let mut v = Vec::new();
    v.push(200u16);
    assert(v@ =~= seq![200u16]);
    v
}

/// The statuses accepted by default: 302 for POST.
pub fn post_statuses() -> (r: Vec<u16>)
    ensures
        r@ == seq![302u16],
{
    let mut v = Vec::new();
    v.push(302u16);
    assert(v@ =~= seq![302u16]);
    v
}

/// The statuses accepted for a request, as given.
pub fn acceptable(statuses: &[u16]) -> (r: Vec<u16>)
    ensures
        r@ == statuses@,
{
    let mut v: Vec<u16> = Vec::new();
    let mut i: usize = 0;
    while i < statuses.len()
        invariant
            i <= statuses.len(),
            v@ == statuses@.take(i as int),
        decreases statuses.len() - i,
    {
        v.push(statuses[i]);
        i = i + 1;
        assert(v@ =~= statuses@.take(i as int));
    }
    assert(v@ =~= statuses@);
    v
}

/// Whether `status` is one of `statuses`.
fn contains_status(statuses: &Vec<u16>, status: u16) -> (r: bool)
    ensures
        r == statuses@.contains(status),
{
    let mut i: usize = 0;
    while i < statuses.len()
        invariant
            i <= statuses.len(),
            forall|k: int| 0 <= k < i ==> statuses@[k] != status,
        decreases statuses.len() - i,
    {
        if statuses[i] == status {
            assert(statuses@[i as int] == status);
            return true;
        }
        i = i + 1;
    }
    false
}

/// The colour of an echoed status: success where it is one of the expected
/// ones, else fatal.
pub fn echo_status_palette(expected: &Vec<u16>, status: u16) -> (r: Palette)
    ensures
        r == (if expected@.contains(status) {
            Palette::Success
        } else {
            Palette::Fatal
        }),
{
    if contains_status(expected, status) {
        Palette::Success
    } else {
        Palette::Fatal
    }
}

/// Accepts a response where no status is expected or its status is
/// expected; else fails with the expected statuses and the status.
pub fn filter_by_status(expected: Vec<u16>, status: u16) -> (r: Result<(), SessionError>)
    ensures
        (expected@.len() == 0 || expected@.contains(status)) ==> r is Ok,
        !(expected@.len() == 0 || expected@.contains(status)) ==> (r matches Err(SessionError::UnexpectedStatusCode(e, s))
            && e@ == expected@ && s == status),
{
    if expected.len() == 0 || contains_status(&expected, status) {
        Ok(())
    } else {
        Err(SessionError::UnexpectedStatusCode(expected, status))
    }
}

/// What to do next while fetching `robots.txt`.
#[derive(Debug)]
pub enum RobotsStep {
    /// Fetch the location that the response redirects to.
    Follow(String),
    /// Keep the body of the response as the `robots.txt` of the host.
    Store,
    /// There is no `robots.txt` to keep.
    Finish,
}

/// The step after a response to a request for `robots.txt`, which accepts
/// 200, 301, 302 and 404: follow a redirect to its location (or stop where
/// there is none), keep the text of a 200, and stop at a 404.
pub fn robots_step(status: u16, location: Option<String>) -> (r: RobotsStep)
    requires
        status == 200 || status == 301 || status == 302 || status == 404,
    ensures
        (status == 301 || status == 302) ==> match location {
            Some(l) => r matches RobotsStep::Follow(x) && x == l,
            None => r is Finish,
        },
        status == 200 ==> r is Store,
        status == 404 ==> r is Finish,
{
    if status == 301 || status == 302 {
        match location {
            Some(l) => RobotsStep::Follow(l),
            None => RobotsStep::Finish,
        }
    } else if status == 200 {
        RobotsStep::Store
    } else {
        RobotsStep::Finish
    }
}

/// The statuses a request for `robots.txt` accepts.
pub fn robots_statuses() -> (r: Vec<u16>)
    ensures
        r@ == seq![200u16, 301u16, 302u16, 404u16],
{
    let mut v = Vec::new();
    v.push(200u16);
    v.push(301u16);
    v.push(302u16);
    v.push(404u16);
    assert(v@ =~= seq![200u16, 301u16, 302u16, 404u16]);
    v
}

/// The state of an HTTP session: the `robots.txt` of each host fetched, the
/// base that paths are resolved against, and the cookies, where they are kept.
pub struct HttpSession {
    pub robots_txts: Vec<(String, String)>,
    pub base: Option<UrlBase>,
    pub jar: Option<SessionCookies>,
}

/// Whether `url` may be fetched: where `robots.txt` of its host was
/// fetched, it lets the user agent fetch its path.
pub open spec fn allowed_by_robots(robots_txts: Seq<(String, String)>, url: ParsedUrl) -> bool {
    match url.host {
        Some(h) => match lookup_named(robots_txts, h@) {
            Some(t) => robots_txt_allows(t@, USER_AGENT@, url.path@),
            None => true,
        },
        None => true,
    }
}

/// `r` holds the contents of the cookie file for the cookies `m`: the
/// `bincode` list of their `Set-Cookie` texts, or the error of `bincode`.
pub open spec fn saved_as(m: Map<Seq<char>, (Seq<char>, Seq<char>)>, r: Result<Option<Vec<u8>>, SessionError>) -> bool {
    exists|ts: Seq<Seq<char>>| #[trigger] crate::cookies::lists_texts(m, ts) && match r {
        Ok(Some(b)) => crate::cookies::bincode_of_strings(ts) == Some(b@) && b@.len() > 0,
        Ok(None) => false,
        Err(e) => e matches SessionError::Cookie(CookieError::Serialize(_)) && crate::cookies::bincode_of_strings(ts) is None,
    }
}

/// The contents of the cookie file for the cookies `c`.
fn save_bytes(c: &SessionCookies) -> (r: Result<Option<Vec<u8>>, SessionError>)
    ensures
        saved_as(c.view(), r),
{
    match c.to_bytes() {
        Ok(b) => Ok(Some(b)),
        Err(e) => Err(SessionError::Cookie(e)),
    }
}

impl HttpSession {
    /// The `robots.txt` of each host is kept once.
    pub open spec fn wf(&self) -> bool {
        names_distinct(self.robots_txts@)
    }

    /// A session with no `robots.txt` fetched yet.
    pub fn new(base: Option<UrlBase>, jar: Option<SessionCookies>) -> (r: HttpSession)
        ensures
            r.robots_txts@.len() == 0,
            r.wf(),
            r.base == base,
            r.jar == jar,
    {
        HttpSession { robots_txts: Vec::new(), base, jar }
    }

    /// The host whose `robots.txt` is fetched when the session starts.
    pub fn robots_host(&self) -> (r: Option<String>)
        ensures
            match self.base {
                Some(b) => r == Some(b.host),
                None => r is None,
            },
    {
        match &self.base {
            Some(b) => Some(b.host.clone()),
            None => None,
        }
    }

    /// Keeps the `robots.txt` of `host`, in place of any earlier one.
    pub fn store_robots_txt(&mut self, host: String, text: String)
        ensures
            final(self).base == old(self).base,
            final(self).jar == old(self).jar,
            old(self).wf() ==> final(self).wf(),
            forall|h: Seq<char>| #[trigger] lookup_named(final(self).robots_txts@, h) == if h == host@ {
                Some(text)
            } else {
                lookup_named(old(self).robots_txts@, h)
            },
    {
        let ghost old_txts = self.robots_txts@;
        let ghost hv = host@;
        let ghost tv = text;
        match first_named_index(&self.robots_txts, host.as_str()) {
            Some(k) => {
                let ghost e = (host, text);
                self.robots_txts.set(k, (host, text));
                assert(self.robots_txts@ == old_txts.update(k as int, e));
                assert forall|h: Seq<char>| #[trigger] lookup_named(self.robots_txts@, h) == if h == hv {
                    Some(tv)
                } else {
                    lookup_named(old_txts, h)
                } by {
                    lemma_lookup_update_first(old_txts, k as int, e, h);
                }
                assert(names_distinct(old_txts) ==> names_distinct(self.robots_txts@)) by {
                    if names_distinct(old_txts) {
                        assert forall|i: int, j: int| 0 <= i < self.robots_txts@.len() && 0 <= j < self.robots_txts@.len() && i != j implies (#[trigger] self.robots_txts@[i]).0@ != (#[trigger] self.robots_txts@[j]).0@ by {
                            assert(old_txts[i].0@ != old_txts[j].0@);
                        }
                    }
                }
            },
            None => {
                let ghost e = (host, text);
                self.robots_txts.push((host, text));
                assert(self.robots_txts@ == old_txts.push(e));
                assert forall|h: Seq<char>| #[trigger] lookup_named(self.robots_txts@, h) == if h == hv {
                    Some(tv)
                } else {
                    lookup_named(old_txts, h)
                } by {
                    lemma_lookup_push_absent(old_txts, e, h);
                }
                assert(names_distinct(old_txts) ==> names_distinct(self.robots_txts@)) by {
                    if names_distinct(old_txts) {
                        assert forall|i: int, j: int| 0 <= i < self.robots_txts@.len() && 0 <= j < self.robots_txts@.len() && i != j implies (#[trigger] self.robots_txts@[i]).0@ != (#[trigger] self.robots_txts@[j]).0@ by {
                            if i < old_txts.len() && j < old_txts.len() {
                                assert(old_txts[i].0@ != old_txts[j].0@);
                            }
                        }
                    }
                }
            },
        }
    }

    /// Whether there is any cookie.
    pub fn has_cookie(&self) -> (r: bool)
        ensures
            r == (match self.jar {
                Some(j) => j.view().dom() != Set::<Seq<char>>::empty(),
                None => false,
            }),
    {
        match &self.jar {
            Some(j) => j.has_any(),
            None => false,
        }
    }

    /// The name and the value of each cookie, where cookies are kept.
    pub fn cookies_to_header(&self) -> (r: Option<Vec<(String, String)>>)
        ensures
            match self.jar {
                Some(j) => r matches Some(v) && crate::cookies::lists_pairs(j.view(), crate::text::pairs_view(v@)),
                None => r is None,
            },
    {
        match &self.jar {
            Some(j) => Some(j.to_header()),
            None => None,
        }
    }

    /// Adds a cookie where cookies are kept, and gives the new contents of
    /// the cookie file.
    pub fn insert_cookie(&mut self, cookie: ParsedCookie) -> (r: Result<Option<Vec<u8>>, SessionError>)
        ensures
            final(self).base == old(self).base,
            final(self).robots_txts == old(self).robots_txts,
            match old(self).jar {
                None => r matches Ok(None) && final(self).jar is None,
                Some(j) => {
                    &&& final(self).jar matches Some(k) && k.view() == j.view().insert(cookie.name_view(), (cookie.value_view(), cookie.text_view()))
                    &&& saved_as(j.view().insert(cookie.name_view(), (cookie.value_view(), cookie.text_view())), r)
                },
            },
    {
        match &mut self.jar {
            None => Ok(None),
            Some(j) => {
                j.insert_cookie(cookie);
                save_bytes(j)
            },
        }
    }

    /// Removes all cookies where cookies are kept, and gives the new
    /// contents of the cookie file.
    pub fn clear_cookies(&mut self) -> (r: Result<Option<Vec<u8>>, SessionError>)
        ensures
            final(self).base == old(self).base,
            final(self).robots_txts == old(self).robots_txts,
            match old(self).jar {
                None => r matches Ok(None) && final(self).jar is None,
                Some(_) => {
                    &&& final(self).jar matches Some(k) && k.view() == no_cookies()
                    &&& saved_as(no_cookies(), r)
                },
            },
    {
        match &mut self.jar {
            None => Ok(None),
            Some(j) => {
                *j = SessionCookies::new();
                save_bytes(j)
            },
        }
    }

    /// Adds the cookies that a response set, where cookies are kept and the
    /// response has a `Set-Cookie` header, and gives the new contents of the
    /// cookie file.
    pub fn update_cookies(&mut self, set_cookies: Option<Vec<String>>, response_url: &str) -> (r: Result<Option<Vec<u8>>, SessionError>)
        ensures
            final(self).base == old(self).base,
            final(self).robots_txts == old(self).robots_txts,
            (old(self).jar is None || set_cookies is None) ==> (r matches Ok(None) && final(self).jar == old(self).jar),
            old(self).jar is Some && set_cookies is Some ==> match crate::cookies::add_parsed(old(self).jar->0.view(), crate::cookies::string_views(set_cookies->0@)) {
                (m, None) => {
                    &&& final(self).jar matches Some(k) && k.view() == m
                    &&& saved_as(m, r)
                },
                (m, Some(bad)) => {
                    &&& final(self).jar matches Some(k) && k.view() == m
                    &&& r matches Err(SessionError::Cookie(CookieError::ParseCookieFromUrl(s, u, _))) && s@ == bad && u@ == response_url@
                },
            },
    {
        let sc = match set_cookies {
            Some(sc) => sc,
            None => return Ok(None),
        };
        match &mut self.jar {
            None => Ok(None),
            Some(j) => {
                match j.update(&sc, response_url) {
                    Ok(()) => {},
                    Err(e) => return Err(SessionError::Cookie(e)),
                }
                save_bytes(j)
            },
        }
    }

    /// Resolves `url`: against the base where there is one, else as an
    /// absolute URL.
    pub fn resolve_url(&self, url: &str) -> (r: Result<ParsedUrl, SessionError>)
        ensures
            parsed_as(match self.base {
                Some(b) => url_text(b, url@),
                None => url@,
            }, r),
    {
        match &self.base {
            Some(base) => base.with(url),
            None => parse_url_text(String::from_str(url)),
        }
    }

    /// Fails where the `robots.txt` of the host of `url` forbids its path.
    pub fn assert_not_forbidden_by_robots_txt(&self, url: &ParsedUrl) -> (r: Result<(), SessionError>)
        requires
            is_ascii_chars(url.path@),
        ensures
            allowed_by_robots(self.robots_txts@, *url) ==> r is Ok,
            !allowed_by_robots(self.robots_txts@, *url) ==> r matches Err(SessionError::ForbiddenByRobotsTxt),
    {
        if let Some(host) = &url.host {
            if let Some(robots_txt) = crate::config::find_named(&self.robots_txts, host.as_str()) {
                proof {
                    lemma_user_agent_ascii();
                }
                if !robots_allows(robots_txt.as_str(), USER_AGENT, url.path.as_str()) {
                    return Err(SessionError::ForbiddenByRobotsTxt);
                }
            }
        }
        Ok(())
    }

    /// The URL a request goes to: `url` resolved, where `robots.txt` lets
    /// it be fetched.
    pub fn request_url(&self, url: &str) -> (r: Result<ParsedUrl, SessionError>)
        ensures
            ({
                let text = match self.base {
                    Some(b) => url_text(b, url@),
                    None => url@,
                };
                match url_parse(text) {
                    None => r matches Err(SessionError::ParseUrl(t, _)) && t@ == text,
                    Some(parts) => exists|u: ParsedUrl| #[trigger] url_parts(u) == parts && is_ascii_chars(u.path@) && if allowed_by_robots(self.robots_txts@, u) {
                        r == Ok::<ParsedUrl, SessionError>(u)
                    } else {
                        r matches Err(SessionError::ForbiddenByRobotsTxt)
                    },
                }
            }),
    {
        let u = self.resolve_url(url)?;
        match self.assert_not_forbidden_by_robots_txt(&u) {
            Ok(()) => Ok(u),
            Err(e) => Err(e),
        }
    }
}

/// Once the `robots.txt` of a host is kept, it alone decides whether a URL
/// of that host may be fetched.
pub proof fn lemma_stored_robots_txt_decides(
    before: Seq<(String, String)>,
    after: Seq<(String, String)>,
    host: String,
    text: String,
    url: ParsedUrl,
)
    requires
        forall|h: Seq<char>| #[trigger] lookup_named(after, h) == if h == host@ {
            Some(text)
        } else {
            lookup_named(before, h)
        },
        url.host matches Some(h) && h@ == host@,
    ensures
        allowed_by_robots(after, url) == robots_txt_allows(text@, USER_AGENT@, url.path@),
{
    assert(lookup_named(after, url.host->0@) == Some(text));
}

} // verus!
