//! The cookies of an HTTP session, held in a `cookie::CookieJar` and saved
//! to a file as a `bincode` list of `Set-Cookie` strings.
use vstd::prelude::*;
use vstd::string::StringExecFns;
use crate::text::{chars_of, extend_chars, extend_str, string_of};

verus! {

/// A jar of cookies of the `cookie` crate.
#[verifier::external_type_specification]
#[verifier::external_body]
pub struct ExCookieJar(cookie::CookieJar);

/// A cookie of the `cookie` crate.
#[verifier::external_type_specification]
#[verifier::external_body]
pub struct ExCookie<'c>(cookie::Cookie<'c>);

/// An error of `cookie::Cookie::parse`.
#[verifier::external_type_specification]
#[verifier::external_body]
pub struct ExCookieParseError(cookie::ParseError);

/// An error of `bincode`.
#[verifier::external_type_specification]
#[verifier::external_body]
pub struct ExBincodeErrorKind(bincode::ErrorKind);

/// The name, the value and the `Set-Cookie` text (its `Display`) of the
/// cookie that `cookie::Cookie::parse` reads from a string, or `None` where
/// it fails.
pub uninterp spec fn cookie_parse(s: Seq<char>) -> Option<(Seq<char>, Seq<char>, Seq<char>)>;

/// The cookies of a `cookie::CookieJar`, each name with the value and the
/// `Set-Cookie` text of the cookie of that name.
pub uninterp spec fn jar_contents(jar: cookie::CookieJar) -> Map<Seq<char>, (Seq<char>, Seq<char>)>;

/// The bytes that `bincode::serialize` writes for a list of strings, or `None`
/// where it fails.
pub uninterp spec fn bincode_of_strings(v: Seq<Seq<char>>) -> Option<Seq<u8>>;

/// The list of strings that `bincode::deserialize` reads from bytes, or
/// `None` where it fails.
pub uninterp spec fn strings_of_bincode(b: Seq<u8>) -> Option<Seq<Seq<char>>>;

/// No cookies.
pub open spec fn no_cookies() -> Map<Seq<char>, (Seq<char>, Seq<char>)> {
    Map::empty()
}

/// A cookie read from a string, with its name, its value and its
/// `Set-Cookie` text.
pub struct ParsedCookie {
    name: String,
    value: String,
    text: String,
    cookie: cookie::Cookie<'static>,
}

impl ParsedCookie {
    /// The name of the cookie.
    pub closed spec fn name_view(&self) -> Seq<char> {
        self.name@
    }

    /// The value of the cookie.
    pub closed spec fn value_view(&self) -> Seq<char> {
        self.value@
    }

    /// The `Set-Cookie` text of the cookie.
    pub closed spec fn text_view(&self) -> Seq<char> {
        self.text@
    }
}

/// Calls `cookie::Cookie::parse` on `s`, and reads the name, the value and
/// the `Display` text of the cookie.  The contract ties them to `s` alone by
/// the name `cookie_parse`.
#[verifier::external_body]
pub fn parse_cookie(s: String) -> (r: Result<ParsedCookie, cookie::ParseError>)
    ensures
        match r {
            Ok(c) => cookie_parse(s@) == Some((c.name_view(), c.value_view(), c.text_view())),
            Err(_) => cookie_parse(s@) is None,
        },
{
    match cookie::Cookie::parse(s) {
        Ok(c) => Ok(ParsedCookie {
            name: c.name().to_owned(),
            value: c.value().to_owned(),
            text: c.to_string(),
            cookie: c,
        }),
        Err(e) => Err(e),
    }
}

/// Calls `cookie::CookieJar::new`: a jar without cookies.
#[verifier::external_body]
fn jar_new() -> (r: cookie::CookieJar)
    ensures
        jar_contents(r) == no_cookies(),
{
    cookie::CookieJar::new()
}

/// Calls `cookie::CookieJar::add`, which replaces the cookie of the same name
/// (the jar keys its cookies by name).
#[verifier::external_body]
fn jar_add(j: &mut cookie::CookieJar, c: ParsedCookie)
    ensures
        jar_contents(*final(j)) == jar_contents(*old(j)).insert(c.name_view(), (c.value_view(), c.text_view())),
{
    j.add(c.cookie)
}

/// Calls `cookie::CookieJar::iter` and reads the name, the value and the
/// `Display` text of each cookie.  The order is the jar's, which the contract
/// leaves open: each cookie of the jar comes once.
#[verifier::external_body]
fn jar_cookies(j: &cookie::CookieJar) -> (r: Vec<(String, String, String)>)
    ensures
        forall|i: int| 0 <= i < r@.len() ==> #[trigger] jar_contents(*j).contains_key(r@[i].0@)
            && jar_contents(*j)[r@[i].0@] == (r@[i].1@, r@[i].2@),
        forall|i: int, k: int| 0 <= i < r@.len() && 0 <= k < r@.len() && i != k ==> #[trigger] r@[i].0@ != #[trigger] r@[k].0@,
        forall|n: Seq<char>| #[trigger] jar_contents(*j).contains_key(n) ==> exists|i: int| 0 <= i < r@.len() && #[trigger] r@[i].0@ == n,
{
    let mut v = Vec::new();
    for c in j.iter() {
        v.push((c.name().to_owned(), c.value().to_owned(), c.to_string()));
    }
    v
}

/// The characters of each string of a list.
pub open spec fn string_views(v: Seq<String>) -> Seq<Seq<char>> {
    v.map_values(|s: String| s@)
}

/// Calls `bincode::serialize` on a list of strings.  The bytes are named by
/// `bincode_of_strings`; they start with the 8 bytes of the length of the
/// list, as the crate's README says of the encoding of a vector.
#[verifier::external_body]
fn serialize_strings(v: &Vec<String>) -> (r: Result<Vec<u8>, Box<bincode::ErrorKind>>)
    ensures
        match r {
            Ok(b) => bincode_of_strings(string_views(v@)) == Some(b@) && b@.len() >= 8,
            Err(_) => bincode_of_strings(string_views(v@)) is None,
        },
{
    bincode::serialize(v)
}

/// Calls `bincode::deserialize` for a list of strings.  The list is named by
/// `strings_of_bincode`; where the bytes are those that `bincode::serialize`
/// writes for a list, that list comes back, as the crate's documentation
/// shows ("serialize it to bytes, and then deserialize it back").
#[verifier::external_body]
fn deserialize_strings(b: &Vec<u8>) -> (r: Result<Vec<String>, Box<bincode::ErrorKind>>)
    ensures
        match r {
            Ok(v) => {
                &&& strings_of_bincode(b@) == Some(string_views(v@))
                &&& forall|w: Seq<Seq<char>>| #[trigger] bincode_of_strings(w) == Some(b@) ==> w == string_views(v@)
            },
            Err(_) => {
                &&& strings_of_bincode(b@) is None
                &&& forall|w: Seq<Seq<char>>| #[trigger] bincode_of_strings(w) != Some(b@)
            },
        },
{
    bincode::deserialize(b.as_slice())
}

/// Why the cookies of a session could not be read, updated or saved.
#[derive(Debug)]
pub enum CookieError {
    /// The saved file does not start with a `bincode` list of strings
    /// (bytes after such a list are ignored).
    Deserialize(Box<bincode::ErrorKind>),
    /// The cookies could not be written as a `bincode` list of strings.
    Serialize(Box<bincode::ErrorKind>),
    /// A saved cookie could not be read.
    ParseCookieFromPath(String, cookie::ParseError),
    /// A cookie that a response set could not be read; with the URL of the response.
    ParseCookieFromUrl(String, String, cookie::ParseError),
}

/// The cookies read from `ss` added in order to `m`, up to the first string
/// that is no cookie; with that string, where there is one.
pub open spec fn add_parsed(m: Map<Seq<char>, (Seq<char>, Seq<char>)>, ss: Seq<Seq<char>>) -> (Map<Seq<char>, (Seq<char>, Seq<char>)>, Option<Seq<char>>)
    decreases ss.len(),
{
    if ss.len() == 0 {
        (m, None)
    } else {
        match cookie_parse(ss[0]) {
            None => (m, Some(ss[0])),
            Some(c) => add_parsed(m.insert(c.0, (c.1, c.2)), ss.drop_first()),
        }
    }
}

/// `ts` lists the `Set-Cookie` texts of the cookies of `m`, each once.
pub open spec fn lists_texts(m: Map<Seq<char>, (Seq<char>, Seq<char>)>, ts: Seq<Seq<char>>) -> bool {
    exists|names: Seq<Seq<char>>| {
        &&& names.len() == ts.len()
        &&& names.no_duplicates()
        &&& forall|i: int| 0 <= i < names.len() ==> #[trigger] m.contains_key(names[i]) && m[names[i]].1 == ts[i]
        &&& forall|n: Seq<char>| #[trigger] m.contains_key(n) ==> names.contains(n)
    }
}

/// `ps` lists the names and values of the cookies of `m`, each once.
pub open spec fn lists_pairs(m: Map<Seq<char>, (Seq<char>, Seq<char>)>, ps: Seq<(Seq<char>, Seq<char>)>) -> bool {
    &&& forall|i: int| 0 <= i < ps.len() ==> #[trigger] m.contains_key(ps[i].0) && m[ps[i].0].0 == ps[i].1
    &&& forall|i: int, k: int| 0 <= i < ps.len() && 0 <= k < ps.len() && i != k ==> #[trigger] ps[i].0 != #[trigger] ps[k].0
    &&& forall|n: Seq<char>| #[trigger] m.contains_key(n) ==> exists|i: int| 0 <= i < ps.len() && #[trigger] ps[i].0 == n
}

/// The cookies of an HTTP session.
pub struct SessionCookies {
    jar: cookie::CookieJar,
}

impl SessionCookies {
    /// The cookies, each name with its value and its `Set-Cookie` text.
    pub closed spec fn view(&self) -> Map<Seq<char>, (Seq<char>, Seq<char>)> {
        jar_contents(self.jar)
    }

    /// No cookies.
    pub fn new() -> (r: SessionCookies)
        ensures
            r.view() == no_cookies(),
    {
        SessionCookies { jar: jar_new() }
    }

    /// Adds cookies read from strings, in order, until one cannot be read;
    /// hands that one back.
    fn add_all(&mut self, ss: &Vec<String>) -> (r: Option<(String, cookie::ParseError)>)
        ensures
            (final(self).view(), match r {
                Some(e) => Some(e.0@),
                None => None,
            }) == add_parsed(old(self).view(), string_views(ss@)),
    {
        let mut i: usize = 0;
        let ghost m0 = self.view();
        assert(string_views(ss@).skip(0) =~= string_views(ss@));
        while i < ss.len()
            invariant
                i <= ss.len(),
                m0 == old(self).view(),
                add_parsed(m0, string_views(ss@)) == add_parsed(self.view(), string_views(ss@).skip(i as int)),
            decreases ss.len() - i,
        {
            let s = ss[i].clone();
            let ghost sv = s@;
            let ghost rest = string_views(ss@).skip(i as int);
            assert(rest.drop_first() =~= string_views(ss@).skip(i as int + 1));
            assert(rest[0] == sv);
            assert(rest.len() > 0);
            match parse_cookie(s) {
                Ok(c) => {
                    jar_add(&mut self.jar, c);
                },
                Err(e) => {
                    assert(add_parsed(self.view(), rest) == (self.view(), Some(sv)));
                    let t = ss[i].clone();
                    assert(string_views(ss@)[i as int] == t@);
                    assert(t@ == sv);
                    return Some((t, e));
                },
            }
            i = i + 1;
        }
        None
    }

    /// The cookies saved in a file: none where the file is empty, else those
    /// of the `bincode` list of `Set-Cookie` strings it holds.
    pub fn load(bytes: &Vec<u8>) -> (r: Result<SessionCookies, CookieError>)
        ensures
            bytes@.len() == 0 ==> (r matches Ok(c) && c.view() == no_cookies()),
            bytes@.len() > 0 ==> match strings_of_bincode(bytes@) {
                None => r matches Err(CookieError::Deserialize(_)),
                Some(ss) => match add_parsed(no_cookies(), ss) {
                    (m, None) => r matches Ok(c) && c.view() == m,
                    (_, Some(bad)) => r matches Err(CookieError::ParseCookieFromPath(s, _)) && s@ == bad,
                },
            },
            forall|ts: Seq<Seq<char>>| #[trigger] bincode_of_strings(ts) == Some(bytes@) && bytes@.len() > 0 ==> match add_parsed(no_cookies(), ts) {
                (m, None) => r matches Ok(c) && c.view() == m,
                (_, Some(bad)) => r matches Err(CookieError::ParseCookieFromPath(s, _)) && s@ == bad,
            },
    {
        let mut c = SessionCookies::new();
        if bytes.len() == 0 {
            return Ok(c);
        }
        let ss = match deserialize_strings(bytes) {
            Ok(ss) => ss,
            Err(e) => return Err(CookieError::Deserialize(e)),
        };
        match c.add_all(&ss) {
            None => Ok(c),
            Some((s, e)) => Err(CookieError::ParseCookieFromPath(s, e)),
        }
    }

    /// Adds the cookies that a response set, until one cannot be read.
    pub fn update(&mut self, set_cookies: &Vec<String>, url: &str) -> (r: Result<(), CookieError>)
        ensures
            match add_parsed(old(self).view(), string_views(set_cookies@)) {
                (m, None) => r is Ok && final(self).view() == m,
                (m, Some(bad)) => r matches Err(CookieError::ParseCookieFromUrl(s, u, _)) && s@ == bad
                    && u@ == url@ && final(self).view() == m,
            },
    {
        match self.add_all(set_cookies) {
            None => Ok(()),
            Some((s, e)) => Err(CookieError::ParseCookieFromUrl(s, String::from_str(url), e)),
        }
    }

    /// Adds a cookie, replacing the one of the same name.
    pub fn insert_cookie(&mut self, c: ParsedCookie)
        ensures
            final(self).view() == old(self).view().insert(c.name_view(), (c.value_view(), c.text_view())),
    {
        jar_add(&mut self.jar, c);
    }

    /// Whether there is any cookie.
    pub fn has_any(&self) -> (r: bool)
        ensures
            r == (self.view().dom() != Set::<Seq<char>>::empty()),
    {
        let cs = jar_cookies(&self.jar);
        if cs.len() > 0 {
            assert(self.view().contains_key(cs@[0].0@));
            assert(self.view().dom().contains(cs@[0].0@));
            true
        } else {
            assert(self.view().dom() =~= Set::<Seq<char>>::empty());
            false
        }
    }

    /// The name and the value of each cookie, for a `Cookie` header.
    pub fn to_header(&self) -> (r: Vec<(String, String)>)
        ensures
            lists_pairs(self.view(), crate::text::pairs_view(r@)),
    {
        let cs = jar_cookies(&self.jar);
        let mut r: Vec<(String, String)> = Vec::new();
        let mut i: usize = 0;
        while i < cs.len()
            invariant
                i <= cs.len(),
                r@.len() == i,
                forall|k: int| 0 <= k < i ==> (#[trigger] r@[k]).0@ == cs@[k].0@ && r@[k].1@ == cs@[k].1@,
            decreases cs.len() - i,
        {
            r.push((cs[i].0.clone(), cs[i].1.clone()));
            i = i + 1;
        }
        let ghost ps = crate::text::pairs_view(r@);
        assert forall|n: Seq<char>| #[trigger] self.view().contains_key(n) implies exists|i: int| 0 <= i < ps.len() && #[trigger] ps[i].0 == n by {
            let i = choose|i: int| 0 <= i < cs@.len() && #[trigger] cs@[i].0@ == n;
            assert(ps[i].0 == n);
        }
        assert forall|i: int, k: int| 0 <= i < ps.len() && 0 <= k < ps.len() && i != k implies #[trigger] ps[i].0 != #[trigger] ps[k].0 by {
            assert(cs@[i].0@ != cs@[k].0@);
        }
        assert forall|i: int| 0 <= i < ps.len() implies #[trigger] self.view().contains_key(ps[i].0) && self.view()[ps[i].0].0 == ps[i].1 by {
            assert(self.view().contains_key(cs@[i].0@));
        }
        r
    }

    /// The contents of the cookie file: the `bincode` list of the
    /// `Set-Cookie` texts of the cookies, in the order of the jar.
    pub fn to_bytes(&self) -> (r: Result<Vec<u8>, CookieError>)
        ensures
            exists|ts: Seq<Seq<char>>| #[trigger] lists_texts(self.view(), ts) && match r {
                Ok(b) => bincode_of_strings(ts) == Some(b@) && b@.len() > 0,
                Err(e) => e is Serialize && bincode_of_strings(ts) is None,
            },
    {
        let cs = jar_cookies(&self.jar);
        let mut texts: Vec<String> = Vec::new();
        let mut i: usize = 0;
        while i < cs.len()
            invariant
                i <= cs.len(),
                texts@.len() == i,
                forall|k: int| 0 <= k < i ==> (#[trigger] texts@[k])@ == cs@[k].2@,
            decreases cs.len() - i,
        {
            texts.push(cs[i].2.clone());
            i = i + 1;
        }
        let ghost names = cs@.map_values(|c: (String, String, String)| c.0@);
        let ghost ts = string_views(texts@);
        assert(names.no_duplicates()) by {
            assert forall|i: int, k: int| 0 <= i < names.len() && 0 <= k < names.len() && i != k implies names[i] != names[k] by {
                assert(cs@[i].0@ != cs@[k].0@);
            }
        }
        assert forall|n: Seq<char>| #[trigger] self.view().contains_key(n) implies names.contains(n) by {
            let i = choose|i: int| 0 <= i < cs@.len() && #[trigger] cs@[i].0@ == n;
            assert(names[i] == n);
        }
        assert forall|i: int| 0 <= i < names.len() implies #[trigger] self.view().contains_key(names[i]) && self.view()[names[i]].1 == ts[i] by {
            assert(self.view().contains_key(cs@[i].0@));
        }
        assert(lists_texts(self.view(), ts));
        match serialize_strings(&texts) {
            Ok(b) => Ok(b),
            Err(e) => Err(CookieError::Serialize(e)),
        }
    }
}

/// Once a cookie is added, the names and values listed for a `Cookie`
/// header include its name with its value.
pub proof fn lemma_inserted_cookie_listed(
    m: Map<Seq<char>, (Seq<char>, Seq<char>)>,
    name: Seq<char>,
    value: Seq<char>,
    text: Seq<char>,
    ps: Seq<(Seq<char>, Seq<char>)>,
)
    requires
        lists_pairs(m.insert(name, (value, text)), ps),
    ensures
        exists|i: int| 0 <= i < ps.len() && ps[i] == (name, value),
{
    let m2 = m.insert(name, (value, text));
    assert(m2.contains_key(name));
    let i = choose|i: int| 0 <= i < ps.len() && #[trigger] ps[i].0 == name;
    assert(m2[ps[i].0].0 == ps[i].1);
    assert(ps[i] == (name, value));
}

/// Once the cookies are cleared, no name is listed for a `Cookie` header.
pub proof fn lemma_cleared_lists_nothing(ps: Seq<(Seq<char>, Seq<char>)>)
    requires
        lists_pairs(no_cookies(), ps),
    ensures
        ps.len() == 0,
{
    if ps.len() > 0 {
        assert(no_cookies().contains_key(ps[0].0));
    }
}

/// The value of a `Cookie` header: `name=value` of each cookie, joined with `; `.
pub open spec fn cookie_header_text(ps: Seq<(Seq<char>, Seq<char>)>) -> Seq<char>
    decreases ps.len(),
{
    if ps.len() == 0 {
        Seq::empty()
    } else if ps.len() == 1 {
        ps[0].0 + "="@ + ps[0].1
    } else {
        cookie_header_text(ps.drop_last()) + "; "@ + ps.last().0 + "="@ + ps.last().1
    }
}

/// The value of a `Cookie` header for the given names and values.
pub fn cookie_header_value(ps: &Vec<(String, String)>) -> (r: String)
    ensures
        r@ == cookie_header_text(crate::text::pairs_view(ps@)),
{
    let mut out: Vec<char> = Vec::new();
    let mut i: usize = 0;
    while i < ps.len()
        invariant
            i <= ps.len(),
            out@ == cookie_header_text(crate::text::pairs_view(ps@).take(i as int)),
        decreases ps.len() - i,
    {
        let ghost after = crate::text::pairs_view(ps@).take(i as int + 1);
        assert(after.drop_last() =~= crate::text::pairs_view(ps@).take(i as int));
        if i > 0 {
            extend_str(&mut out, "; ");
        }
        extend_str(&mut out, ps[i].0.as_str());
        extend_str(&mut out, "=");
        extend_str(&mut out, ps[i].1.as_str());
        i = i + 1;
        assert(out@ =~= cookie_header_text(after));
    }
    assert(crate::text::pairs_view(ps@).take(ps.len() as int) =~= crate::text::pairs_view(ps@));
    string_of(&out)
}

} // verus!
