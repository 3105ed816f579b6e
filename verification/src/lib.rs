//! A library for the command-line tool of competitive programming services:
//! its configuration file, its HTTP session rules and the retrieval of test
//! cases, each stated and proved with Verus.
use vstd::prelude::*;
use vstd::string::StringExecFns;
use vstd::utf8::is_ascii_chars;
use crate::text::{ascii_lowercase, ascii_uppercase, chars_eq, chars_of, concat_str, debug_str, debug_text, lowercase, to_lowercase};

pub mod text;
pub mod yaml;
pub mod template;
pub mod config;
pub mod cookies;
pub mod session;
pub mod testcases;

verus! {

/// A competitive programming service.
#[derive(Clone, Copy, Debug, PartialEq, Eq, Structural)]
pub enum ServiceName {
    AtCoder,
    AtCoderBeta,
    HackerRank,
}

/// The lowercase name of a service.
pub open spec fn service_str(s: ServiceName) -> Seq<char> {
    match s {
        ServiceName::AtCoder => "atcoder"@,
        ServiceName::AtCoderBeta => "atcoderbeta"@,
        ServiceName::HackerRank => "hackerrank"@,
    }
}

/// The service whose lowercase name is `name`.
pub open spec fn service_named(name: Seq<char>) -> Option<ServiceName> {
    if name == "atcoder"@ {
        Some(ServiceName::AtCoder)
    } else if name == "atcoderbeta"@ {
        Some(ServiceName::AtCoderBeta)
    } else if name == "hackerrank"@ {
        Some(ServiceName::HackerRank)
    } else {
        None
    }
}

/// The message for a string that names no service.
pub open spec fn unsupported_service_message(s: Seq<char>) -> Seq<char> {
    "Unsupported service name: "@ + debug_text(s)
}

impl ServiceName {
    /// The lowercase name of the service.
    pub fn as_str(self) -> (r: &'static str)
        ensures
            r@ == service_str(self),
    {
        match self {
            ServiceName::AtCoder => "atcoder",
            ServiceName::AtCoderBeta => "atcoderbeta",
            ServiceName::HackerRank => "hackerrank",
        }
    }

    /// The lowercase name of the service, as its `Display` writes it.
    pub fn to_string(self) -> (r: String)
        ensures
            r@ == service_str(self),
    {
        String::from_str(self.as_str())
    }

    /// The service named `s`, in any case.
    pub fn parse(s: &str) -> (r: Result<ServiceName, String>)
        ensures
            match service_named(lowercase(s@)) {
                Some(x) => r == Ok::<ServiceName, String>(x),
                None => r is Err && r->Err_0@ == unsupported_service_message(s@),
            },
            is_ascii_chars(s@) ==> match service_named(ascii_lowercase(s@)) {
                Some(x) => r == Ok::<ServiceName, String>(x),
                None => r is Err,
            },
    {
        let lower = to_lowercase(s);
        let l = chars_of(lower.as_str());
        if chars_eq(&l, &chars_of("atcoder")) {
            Ok(ServiceName::AtCoder)
        } else if chars_eq(&l, &chars_of("atcoderbeta")) {
            Ok(ServiceName::AtCoderBeta)
        } else if chars_eq(&l, &chars_of("hackerrank")) {
            Ok(ServiceName::HackerRank)
        } else {
            Err(concat_str("Unsupported service name: ", debug_str(s).as_str()))
        }
    }
}

/// The name a service is written as is ASCII and names that service again,
/// so parsing it gives the service back.
pub proof fn lemma_service_name_round_trip(x: ServiceName)
    ensures
        is_ascii_chars(service_str(x)),
        service_named(ascii_lowercase(service_str(x))) == Some(x),
        service_named("atcoder"@) == Some(ServiceName::AtCoder),
        service_named("atcoderbeta"@) == Some(ServiceName::AtCoderBeta),
        service_named("hackerrank"@) == Some(ServiceName::HackerRank),
{
    reveal_strlit("atcoder");
    reveal_strlit("atcoderbeta");
    reveal_strlit("hackerrank");
    assert("atcoder"@.len() == 7);
    assert("atcoderbeta"@.len() == 11);
    assert("hackerrank"@.len() == 10);
    assert(ascii_lowercase(service_str(x)) =~= service_str(x));
}

/// Different services have different names.
pub proof fn lemma_service_str_injective(s: ServiceName, t: ServiceName)
    ensures
        service_str(s) == service_str(t) ==> s == t,
{
    reveal_strlit("atcoder");
    reveal_strlit("atcoderbeta");
    reveal_strlit("hackerrank");
    assert("atcoder"@.len() == 7);
    assert("atcoderbeta"@.len() == 11);
    assert("hackerrank"@.len() == 10);
    if service_str(s) == service_str(t) {
        assert(service_str(s).len() == service_str(t).len());
    }
}

/// The name of a service written in capitals is ASCII and names that service
/// again, so parsing it gives the service back.
pub proof fn lemma_service_name_uppercase_round_trip(x: ServiceName)
    ensures
        is_ascii_chars(ascii_uppercase(service_str(x))),
        service_named(ascii_lowercase(ascii_uppercase(service_str(x)))) == Some(x),
{
    reveal_strlit("atcoder");
    reveal_strlit("atcoderbeta");
    reveal_strlit("hackerrank");
    let n = service_str(x);
    assert forall|i: int| 0 <= i < n.len() implies 'a' <= #[trigger] n[i] <= 'z' by {
        match x {
            ServiceName::AtCoder => assert(n == seq!['a', 't', 'c', 'o', 'd', 'e', 'r']),
            ServiceName::AtCoderBeta => assert(n == seq!['a', 't', 'c', 'o', 'd', 'e', 'r', 'b', 'e', 't', 'a']),
            ServiceName::HackerRank => assert(n == seq!['h', 'a', 'c', 'k', 'e', 'r', 'r', 'a', 'n', 'k']),
        }
    }
    let u = ascii_uppercase(n);
    assert forall|i: int| 0 <= i < u.len() implies '\0' <= #[trigger] u[i] <= '\u{7f}' by {
        assert('a' <= n[i] <= 'z');
    }
    assert(ascii_lowercase(u) =~= n) by {
        assert forall|i: int| 0 <= i < n.len() implies #[trigger] ascii_lowercase(u)[i] == n[i] by {
            assert('a' <= n[i] <= 'z');
        }
    }
}

impl std::str::FromStr for ServiceName {
    type Err = String;

    fn from_str(s: &str) -> (r: Result<Self, String>)
        ensures
            match service_named(lowercase(s@)) {
                Some(x) => r == Ok::<ServiceName, String>(x),
                None => r is Err && r->Err_0@ == unsupported_service_message(s@),
            },
            is_ascii_chars(s@) ==> match service_named(ascii_lowercase(s@)) {
                Some(x) => r == Ok::<ServiceName, String>(x),
                None => r is Err,
            },
    {
        ServiceName::parse(s)
    }
}

} // verus!
