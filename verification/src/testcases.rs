//! The decisions of `retrieve testcases`: which platform, contest and
//! problems to retrieve, how a test suite with text files is rewritten, and
//! what is reported for each problem.
use vstd::prelude::*;
use vstd::string::StringExecFns;
use crate::session::{decimal, decimal_chars};
use crate::text::{chars_eq, chars_of, extend_chars, extend_str, string_of};

verus! {

/// A platform that test cases can be retrieved from.
#[derive(Clone, Copy, Debug, PartialEq, Eq, Structural)]
pub enum Platform {
    Atcoder,
    Codeforces,
    Yukicoder,
}

/// When output is coloured.
#[derive(Clone, Copy, Debug, PartialEq, Eq, Structural)]
pub enum ColorChoice {
    Always,
    Auto,
    Never,
}

/// The kebab-case name of a platform.
pub open spec fn platform_str(p: Platform) -> Seq<char> {
    match p {
        Platform::Atcoder => "atcoder"@,
        Platform::Codeforces => "codeforces"@,
        Platform::Yukicoder => "yukicoder"@,
    }
}

/// The platform whose kebab-case name is `s`.
pub open spec fn platform_named(s: Seq<char>) -> Option<Platform> {
    if s == "atcoder"@ {
        Some(Platform::Atcoder)
    } else if s == "codeforces"@ {
        Some(Platform::Codeforces)
    } else if s == "yukicoder"@ {
        Some(Platform::Yukicoder)
    } else {
        None
    }
}

impl Platform {
    /// The kebab-case name of the platform.
    pub fn to_kebab_case_str(self) -> (r: &'static str)
        ensures
            r@ == platform_str(self),
    {
        match self {
            Platform::Atcoder => "atcoder",
            Platform::Codeforces => "codeforces",
            Platform::Yukicoder => "yukicoder",
        }
    }

    /// The platform named `s` in kebab case.
    pub fn parse(s: &str) -> (r: Option<Platform>)
        ensures
            r == platform_named(s@),
    {
        let v = chars_of(s);
        if chars_eq(&v, &chars_of("atcoder")) {
            Some(Platform::Atcoder)
        } else if chars_eq(&v, &chars_of("codeforces")) {
            Some(Platform::Codeforces)
        } else if chars_eq(&v, &chars_of("yukicoder")) {
            Some(Platform::Yukicoder)
        } else {
            None
        }
    }
}

/// The options of `retrieve testcases`.
pub struct OptRetrieveTestcases {
    /// Prints the output as a JSON value.
    pub json: bool,
    /// Path to `snowchains.dhall`.
    pub config: Option<String>,
    /// Coloring.
    pub color: ColorChoice,
    /// Platform.
    pub service: Option<Platform>,
    /// Contest ID.
    pub contest: Option<String>,
    /// Problem indexes (e.g. "a", "b", "c").
    pub problems: Vec<String>,
}

/// What the configuration detects from the working directory.
pub struct DetectedTarget {
    pub service: Option<String>,
    pub contest: Option<String>,
    pub problem: Option<String>,
}

/// The value of a decimal digit character.
pub open spec fn digit_value(c: char) -> nat {
    (c as nat - '0' as nat) as nat
}

/// Whether `c` is a decimal digit.
pub open spec fn is_digit(c: char) -> bool {
    '0' <= c <= '9'
}

/// The number that decimal digits stand for.
pub open spec fn digits_value(d: Seq<char>) -> nat
    decreases d.len(),
{
    if d.len() == 0 {
        0
    } else {
        digits_value(d.drop_last()) * 10 + digit_value(d.last())
    }
}

/// The digits of a number as `u64::from_str` reads it: after an optional `+`.
pub open spec fn u64_digits(s: Seq<char>) -> Seq<char> {
    if s.len() > 0 && s[0] == '+' {
        s.drop_first()
    } else {
        s
    }
}

/// The number `u64::from_str` reads from `s`: one or more decimal digits
/// after an optional `+`, at most `u64::MAX`.
pub open spec fn parse_u64_spec(s: Seq<char>) -> Option<u64> {
    let d = u64_digits(s);
    if d.len() > 0 && (forall|i: int| 0 <= i < d.len() ==> is_digit(#[trigger] d[i])) && digits_value(d) <= u64::MAX {
        Some(digits_value(d) as u64)
    } else {
        None
    }
}

/// Adding digits never makes the number smaller.
proof fn lemma_digits_value_prefix(d: Seq<char>, k: int)
    requires
        0 <= k <= d.len(),
    ensures
        digits_value(d.take(k)) <= digits_value(d),
    decreases d.len() - k,
{
    if k < d.len() {
        lemma_digits_value_prefix(d, k + 1);
        assert(d.take(k + 1).drop_last() =~= d.take(k));
    } else {
        assert(d.take(k) =~= d);
    }
}

/// Reads a `u64` as `u64::from_str` does.
pub fn parse_u64(s: &str) -> (r: Option<u64>)
    ensures
        r == parse_u64_spec(s@),
{
    let v = chars_of(s);
    let start: usize = if v.len() > 0 && v[0] == '+' {
        1
    } else {
        0
    };
    let ghost d = u64_digits(s@);
    assert(d =~= v@.skip(start as int));
    if start >= v.len() {
        assert(d.len() == 0);
        return None;
    }
    let mut acc: u64 = 0;
    let mut i: usize = start;
    assert(d.take(0) =~= Seq::<char>::empty());
    while i < v.len()
        invariant
            start <= i <= v.len(),
            d == v@.skip(start as int),
            d == u64_digits(s@),
            forall|k: int| 0 <= k < i - start ==> is_digit(#[trigger] d[k]),
            acc as nat == digits_value(d.take(i - start)),
        decreases v.len() - i,
    {
        let c = v[i];
        if !('0' <= c && c <= '9') {
            assert(!is_digit(d[i - start]));
            return None;
        }
        let ghost t = d.take(i - start + 1);
        assert(t.drop_last() =~= d.take(i - start));
        assert(t.last() == c);
        let dv: u64 = (c as u64) - ('0' as u64);
        let next: u128 = (acc as u128) * 10 + (dv as u128);
        assert(next == digits_value(t));
        if next > u64::MAX as u128 {
            proof {
                lemma_digits_value_prefix(d, i - start + 1);
            }
            return None;
        }
        acc = next as u64;
        i = i + 1;
    }
    assert(d.take(d.len() as int) =~= d);
    Some(acc)
}

/// The decimal text of a number is a nonempty run of digits standing for it.
proof fn lemma_decimal_digits(n: nat)
    ensures
        decimal(n).len() > 0,
        forall|i: int| 0 <= i < decimal(n).len() ==> is_digit(#[trigger] decimal(n)[i]),
        digits_value(decimal(n)) == n,
    decreases n,
{
    let c = crate::session::digit_char(n % 10);
    assert(c as nat == n % 10 + 48);
    assert(is_digit(c));
    assert(digit_value(c) == n % 10);
    if n >= 10 {
        lemma_decimal_digits(n / 10);
        let d = decimal(n);
        assert(d.drop_last() =~= decimal(n / 10));
        assert(d.last() == c);
        assert(digits_value(d) == digits_value(decimal(n / 10)) * 10 + digit_value(c));
        assert((n / 10) * 10 + n % 10 == n) by (nonlinear_arith);
        assert(digits_value(decimal(n / 10)) == n / 10);
        assert(digits_value(d) == n);
        assert forall|i: int| 0 <= i < d.len() implies is_digit(#[trigger] d[i]) by {
            if i < d.len() - 1 {
                assert(d[i] == decimal(n / 10)[i]);
            }
        }
    } else {
        let d = decimal(n);
        assert(d.drop_last() =~= Seq::<char>::empty());
        assert(n % 10 == n);
        assert(d.last() == c);
        assert(digits_value(d.drop_last()) == 0);
        assert(digits_value(d) == n);
    }
}

/// Reading the decimal text of a number, as reports write counts, gives
/// the number back.
pub proof fn lemma_decimal_parses_back(n: u64)
    ensures
        parse_u64_spec(decimal(n as nat)) == Some(n),
{
    lemma_decimal_digits(n as nat);
    let d = decimal(n as nat);
    assert(is_digit(d[0]));
    assert(u64_digits(d) == d);
}

/// The problems to retrieve: those given, or else the one detected, or else all.
pub open spec fn chosen_problems(given: Seq<String>, detected: Option<String>) -> Option<Seq<String>> {
    if given.len() == 0 {
        match detected {
            None => None,
            Some(p) => Some(seq![p]),
        }
    } else {
        Some(given)
    }
}

/// What to retrieve from each platform.
#[derive(Debug)]
pub enum RetrieveTargets {
    Atcoder { contest: String, problems: Option<Vec<String>> },
    Codeforces { contest_id: u64, problems: Option<Vec<String>> },
    YukicoderProblems { nos: Vec<u64> },
    YukicoderContest { contest: String, problems: Option<Vec<String>> },
}

/// The characters of each of a list of strings.
pub open spec fn string_seq_view(v: Seq<String>) -> Seq<Seq<char>> {
    v.map_values(|s: String| s@)
}

/// The characters of an optional list of strings.
pub open spec fn opt_strings_view(o: Option<Vec<String>>) -> Option<Seq<Seq<char>>> {
    match o {
        Some(v) => Some(string_seq_view(v@)),
        None => None,
    }
}

/// The characters of an optional list of strings.
pub open spec fn opt_seq_view(o: Option<Seq<String>>) -> Option<Seq<Seq<char>>> {
    match o {
        Some(v) => Some(string_seq_view(v)),
        None => None,
    }
}

/// The platform to retrieve from: the one given, or else the one detected
/// (an error where it names no platform), or else an error.
pub open spec fn chosen_platform(given: Option<Platform>, detected: Option<String>) -> Result<Platform, Seq<char>> {
    match given {
        Some(p) => Ok(p),
        None => match detected {
            None => Err("`service` is not specified"@),
            Some(s) => match platform_named(s@) {
                Some(p) => Ok(p),
                None => Err("Specified invalid `service` by `detectServiceFromRelativePathSegments`"@),
            },
        },
    }
}

/// Every string of `ps` reads as a `u64`.
pub open spec fn all_u64(ps: Seq<Seq<char>>) -> bool {
    forall|i: int| 0 <= i < ps.len() ==> #[trigger] parse_u64_spec(ps[i]) is Some
}

/// `r` holds the targets for `platform`, given the contest and the problems.
pub open spec fn targets_spec(
    platform: Platform,
    contest: Option<Seq<char>>,
    problems: Option<Seq<Seq<char>>>,
    r: Result<RetrieveTargets, String>,
) -> bool {
    match platform {
        Platform::Atcoder => match contest {
            None => r matches Err(m) && m@ == "`contest` is required for AtCoder"@,
            Some(c) => r matches Ok(RetrieveTargets::Atcoder { contest, problems: ps }) && contest@ == c && opt_strings_view(ps) == problems,
        },
        Platform::Codeforces => match contest {
            None => r matches Err(m) && m@ == "`contest` is required for Codeforces"@,
            Some(c) => match parse_u64_spec(c) {
                None => r matches Err(m) && m@ == "`contest` for Codeforces must be 64-bit unsigned integer"@,
                Some(n) => r matches Ok(RetrieveTargets::Codeforces { contest_id, problems: ps }) && contest_id == n && opt_strings_view(ps) == problems,
            },
        },
        Platform::Yukicoder => match contest {
            Some(c) => r matches Ok(RetrieveTargets::YukicoderContest { contest, problems: ps }) && contest@ == c && opt_strings_view(ps) == problems,
            None => match problems {
                None => r matches Err(m) && m@ == "`contest` or `problem`s are required for yukicoder"@,
                Some(ps) => if all_u64(ps) {
                    r matches Ok(RetrieveTargets::YukicoderProblems { nos }) && nos@.len() == ps.len()
                        && forall|i: int| 0 <= i < ps.len() ==> parse_u64_spec(ps[i]) == Some(#[trigger] nos@[i])
                } else {
                    r matches Err(m) && m@ == "`problem`s for yukicoder must be unsigned integer"@
                },
            },
        },
    }
}

/// A copy of a list of strings.
fn copy_strings(v: &Vec<String>) -> (r: Vec<String>)
    ensures
        string_seq_view(r@) == string_seq_view(v@),
{
    let mut r: Vec<String> = Vec::new();
    let mut i: usize = 0;
    while i < v.len()
        invariant
            i <= v.len(),
            r@.len() == i,
            string_seq_view(r@) == string_seq_view(v@).take(i as int),
        decreases v.len() - i,
    {
        let ghost r0 = r@;
        r.push(v[i].clone());
        i = i + 1;
        assert forall|k: int| 0 <= k < i implies #[trigger] string_seq_view(r@)[k] == string_seq_view(v@).take(i as int)[k] by {
            if k < i - 1 {
                assert(r@[k] == r0[k]);
                assert(string_seq_view(r0)[k] == string_seq_view(v@).take(i - 1)[k]);
            }
        }
        assert(string_seq_view(r@) =~= string_seq_view(v@).take(i as int));
    }
    assert(string_seq_view(v@).take(v.len() as int) =~= string_seq_view(v@));
    r
}

/// Targets keep what was asked for: the platform they are for, the contest
/// (parsed as a number for Codeforces), and the problems, as chosen, for
/// every target that carries problems; yukicoder problem numbers are those
/// the chosen problems read as.
pub proof fn lemma_targets_carry_choice(
    platform: Platform,
    contest: Option<Seq<char>>,
    problems: Option<Seq<Seq<char>>>,
    t: RetrieveTargets,
)
    requires
        targets_spec(platform, contest, problems, Ok(t)),
    ensures
        match t {
            RetrieveTargets::Atcoder { contest: c, problems: ps } => {
                &&& platform == Platform::Atcoder
                &&& contest == Some(c@)
                &&& opt_strings_view(ps) == problems
            },
            RetrieveTargets::Codeforces { contest_id, problems: ps } => {
                &&& platform == Platform::Codeforces
                &&& contest matches Some(c) && parse_u64_spec(c) == Some(contest_id)
                &&& opt_strings_view(ps) == problems
            },
            RetrieveTargets::YukicoderContest { contest: c, problems: ps } => {
                &&& platform == Platform::Yukicoder
                &&& contest == Some(c@)
                &&& opt_strings_view(ps) == problems
            },
            RetrieveTargets::YukicoderProblems { nos } => {
                &&& platform == Platform::Yukicoder
                &&& contest is None
                &&& problems matches Some(q) && nos@.len() == q.len()
                    && forall|i: int| 0 <= i < q.len() ==> parse_u64_spec(q[i]) == Some(#[trigger] nos@[i])
            },
        },
{
}

/// Parsing the kebab-case name of a platform gives the platform back, and
/// the names are those of the `--service` option: `atcoder`, `codeforces`
/// and `yukicoder`.
pub proof fn lemma_platform_name_round_trip(p: Platform)
    ensures
        platform_named(platform_str(p)) == Some(p),
        platform_named("atcoder"@) == Some(Platform::Atcoder),
        platform_named("codeforces"@) == Some(Platform::Codeforces),
        platform_named("yukicoder"@) == Some(Platform::Yukicoder),
{
    reveal_strlit("atcoder");
    reveal_strlit("codeforces");
    reveal_strlit("yukicoder");
    assert("atcoder"@.len() == 7);
    assert("codeforces"@.len() == 10);
    assert("yukicoder"@.len() == 9);
}

/// Different platforms have different names.
pub proof fn lemma_platform_str_injective(p: Platform, q: Platform)
    ensures
        platform_str(p) == platform_str(q) ==> p == q,
{
    lemma_platform_name_round_trip(p);
    lemma_platform_name_round_trip(q);
}

/// The targets of `platform`, given the contest and the problems.
pub fn targets_for(platform: Platform, contest: Option<String>, problems: Option<Vec<String>>) -> (r: Result<RetrieveTargets, String>)
    ensures
        targets_spec(platform, crate::text::opt_view(contest), opt_strings_view(problems), r),
{
    match platform {
        Platform::Atcoder => match contest {
            None => Err(String::from_str("`contest` is required for AtCoder")),
            Some(c) => Ok(RetrieveTargets::Atcoder { contest: c, problems }),
        },
        Platform::Codeforces => match contest {
            None => Err(String::from_str("`contest` is required for Codeforces")),
            Some(c) => match parse_u64(c.as_str()) {
                None => Err(String::from_str("`contest` for Codeforces must be 64-bit unsigned integer")),
                Some(n) => Ok(RetrieveTargets::Codeforces { contest_id: n, problems }),
            },
        },
        Platform::Yukicoder => match contest {
            Some(c) => Ok(RetrieveTargets::YukicoderContest { contest: c, problems }),
            None => match problems {
                None => Err(String::from_str("`contest` or `problem`s are required for yukicoder")),
                Some(ps) => {
                    let mut nos: Vec<u64> = Vec::new();
                    let mut i: usize = 0;
                    while i < ps.len()
                        invariant
                            i <= ps.len(),
                            platform == Platform::Yukicoder,
                            contest is None,
                            problems == Some(ps),
                            nos@.len() == i,
                            forall|k: int| 0 <= k < i ==> parse_u64_spec(string_seq_view(ps@)[k]) == Some(#[trigger] nos@[k]),
                        decreases ps.len() - i,
                    {
                        match parse_u64(ps[i].as_str()) {
                            Some(n) => {
                                nos.push(n);
                            },
                            None => {
                                assert(parse_u64_spec(string_seq_view(ps@)[i as int]) is None);
                                return Err(String::from_str("`problem`s for yukicoder must be unsigned integer"));
                            },
                        }
                        i = i + 1;
                    }
                    assert(all_u64(string_seq_view(ps@))) by {
                        assert forall|k: int| 0 <= k < string_seq_view(ps@).len() implies #[trigger] parse_u64_spec(string_seq_view(ps@)[k]) is Some by {
                            assert(parse_u64_spec(string_seq_view(ps@)[k]) == Some(nos@[k]));
                        }
                    }
                    Ok(RetrieveTargets::YukicoderProblems { nos })
                },
            },
        },
    }
}

/// The platform and the targets that `retrieve testcases` retrieves, from
/// the options and what the configuration detects.
pub fn retrieve_targets(opt: &OptRetrieveTestcases, detected: &DetectedTarget) -> (r: Result<(Platform, RetrieveTargets), String>)
    ensures
        match chosen_platform(opt.service, detected.service) {
            Err(m) => r matches Err(e) && e@ == m,
            Ok(p) => {
                let contest = match opt.contest {
                    Some(c) => Some(c@),
                    None => crate::text::opt_view(detected.contest),
                };
                let problems = opt_seq_view(chosen_problems(opt.problems@, detected.problem));
                match r {
                    Ok((q, t)) => q == p && targets_spec(p, contest, problems, Ok(t)),
                    Err(e) => targets_spec(p, contest, problems, Err(e)),
                }
            },
        },
{
    let platform = match opt.service {
        Some(p) => p,
        None => match &detected.service {
            None => return Err(String::from_str("`service` is not specified")),
            Some(s) => match Platform::parse(s.as_str()) {
                Some(p) => p,
                None => return Err(String::from_str("Specified invalid `service` by `detectServiceFromRelativePathSegments`")),
            },
        },
    };
    let contest = match &opt.contest {
        Some(c) => Some(c.clone()),
        None => match &detected.contest {
            Some(c) => Some(c.clone()),
            None => None,
        },
    };
    let problems = if opt.problems.len() == 0 {
        match &detected.problem {
            None => None,
            Some(p) => {
                let mut v: Vec<String> = Vec::new();
                v.push(p.clone());
                assert(string_seq_view(v@) =~= string_seq_view(seq![*p]));
                Some(v)
            },
        }
    } else {
        Some(copy_strings(&opt.problems))
    };
    match targets_for(platform, contest, problems) {
        Ok(t) => Ok((platform, t)),
        Err(e) => Err(e),
    }
}

/// A test case of a batch problem.
pub struct BatchCase {
    pub name: Option<String>,
    pub input: String,
    pub output: Option<String>,
}

/// Test cases of a batch problem kept in files beside the suite.
pub enum Additional {
    Text { base: String, input: String, output: String, timelimit_ms: Option<u64>, match_kind: Option<String> },
}

/// The test suite of a batch problem.
pub struct BatchTestSuite {
    pub timelimit_ms: Option<u64>,
    pub cases: Vec<BatchCase>,
    pub extend: Vec<Additional>,
}

/// The test suite of a problem.
pub enum TestSuite {
    Batch(BatchTestSuite),
    Interactive { timelimit_ms: Option<u64> },
    Unsubmittable,
}

/// `a` is the text files of `slug` in its directory: `./<slug>`, with
/// inputs `/in/*.txt` and outputs `/out/*.txt`.
pub open spec fn is_text_additional(a: Additional, slug: Seq<char>) -> bool {
    match a {
        Additional::Text { base, input, output, timelimit_ms, match_kind } => {
            &&& base@ == "./"@ + slug
            &&& input@ == "/in/*.txt"@
            &&& output@ == "/out/*.txt"@
            &&& timelimit_ms is None
            &&& match_kind is None
        },
    }
}

/// Where a problem comes with text files and its suite is a batch one, the
/// cases of the suite are removed and the text files are added to it.
pub fn attach_text_files(suite: TestSuite, slug: &str, has_text_files: bool) -> (r: TestSuite)
    ensures
        match suite {
            TestSuite::Batch(b) => if has_text_files {
                r matches TestSuite::Batch(nb) && nb.timelimit_ms == b.timelimit_ms && nb.cases@.len() == 0
                    && nb.extend@.len() == b.extend@.len() + 1
                    && nb.extend@.take(b.extend@.len() as int) == b.extend@
                    && is_text_additional(nb.extend@.last(), slug@)
            } else {
                r == TestSuite::Batch(b)
            },
            _ => r == suite,
        },
{
    if !has_text_files {
        return suite;
    }
    match suite {
        TestSuite::Batch(b) => {
            let BatchTestSuite { timelimit_ms, cases, mut extend } = b;
            let ghost e0 = extend@;
            let mut base = chars_of("./");
            extend_str(&mut base, slug);
            extend.push(Additional::Text {
                base: string_of(&base),
                input: String::from_str("/in/*.txt"),
                output: String::from_str("/out/*.txt"),
                timelimit_ms: None,
                match_kind: None,
            });
            assert(extend@.take(e0.len() as int) =~= e0);
            TestSuite::Batch(BatchTestSuite { timelimit_ms, cases: Vec::new(), extend })
        },
        other => other,
    }
}

/// The colour of a report.
#[derive(Clone, Copy, Debug, PartialEq, Eq, Structural)]
pub enum ReportColor {
    Yellow,
    Green,
}

/// The report on the test suite of a problem: for a batch problem the number
/// of its cases and text files, else the kind of problem.
pub open spec fn report_spec(suite: TestSuite, num_text_files: nat) -> (Seq<char>, ReportColor) {
    match suite {
        TestSuite::Batch(b) => {
            let n = b.cases@.len() + num_text_files;
            if n == 0 {
                ("no test cases"@, ReportColor::Yellow)
            } else if n == 1 {
                ("1 test case"@, ReportColor::Green)
            } else {
                (decimal(n) + " test cases"@, ReportColor::Green)
            }
        },
        TestSuite::Interactive { .. } => ("interactive problem"@, ReportColor::Yellow),
        TestSuite::Unsubmittable => ("unsubmittable problem"@, ReportColor::Yellow),
    }
}

/// The report on the test suite of a problem.
pub fn report(suite: &TestSuite, num_text_files: usize) -> (r: (String, ReportColor))
    requires
        (match suite {
            TestSuite::Batch(b) => b.cases@.len() + num_text_files <= u64::MAX,
            _ => true,
        }),
    ensures
        (r.0@, r.1) == report_spec(*suite, num_text_files as nat),
{
    match suite {
        TestSuite::Batch(b) => {
            let n: u64 = b.cases.len() as u64 + num_text_files as u64;
            if n == 0 {
                (String::from_str("no test cases"), ReportColor::Yellow)
            } else if n == 1 {
                (String::from_str("1 test case"), ReportColor::Green)
            } else {
                let mut v = decimal_chars(n);
                extend_str(&mut v, " test cases");
                (string_of(&v), ReportColor::Green)
            }
        },
        TestSuite::Interactive { .. } => (String::from_str("interactive problem"), ReportColor::Yellow),
        TestSuite::Unsubmittable => (String::from_str("unsubmittable problem"), ReportColor::Yellow),
    }
}

/// The name shown for where a problem with text files was saved:
/// `{<slug>.yml, <slug>/}`.
pub fn saved_file_name(slug: &str) -> (r: String)
    ensures
        r@ == "{"@ + slug@ + ".yml, "@ + slug@ + "/}"@,
{
    let mut v = chars_of("{");
    extend_str(&mut v, slug);
    extend_str(&mut v, ".yml, ");
    extend_str(&mut v, slug);
    extend_str(&mut v, "/}");
    string_of(&v)
}


/// What `heck::KebabCase::to_kebab_case` gives for a string.
pub uninterp spec fn kebab_case(s: Seq<char>) -> Seq<char>;

/// Calls `heck::KebabCase::to_kebab_case`.  The result is named by
/// `kebab_case`; nothing more is stated of it.
#[verifier::external_body]
fn to_kebab_case(s: &str) -> (r: String)
    ensures
        r@ == kebab_case(s@),
{
    heck::KebabCase::to_kebab_case(s)
}

/// The path segments, below the workspace, of the test suite file of a
/// problem (before its `yml` extension): `.snowchains/tests/<platform>/<contest>/<slug in kebab case>`.
pub open spec fn suite_segments_spec(platform: Platform, contest: Option<Seq<char>>, slug: Seq<char>) -> Seq<Seq<char>> {
    seq![".snowchains"@, "tests"@, platform_str(platform), match contest {
        Some(c) => c,
        None => Seq::empty(),
    }, kebab_case(slug)]
}

/// The path segments of the test suite file of a problem.
pub fn suite_path_segments(platform: Platform, contest: Option<&str>, slug: &str) -> (r: Vec<String>)
    ensures
        string_seq_view(r@) == suite_segments_spec(platform, crate::config::opt_str(contest), slug@),
{
    let mut v: Vec<String> = Vec::new();
    v.push(String::from_str(".snowchains"));
    v.push(String::from_str("tests"));
    v.push(String::from_str(platform.to_kebab_case_str()));
    v.push(match contest {
        Some(c) => String::from_str(c),
        None => String::new(),
    });
    v.push(to_kebab_case(slug));
    assert(string_seq_view(v@) =~= suite_segments_spec(platform, crate::config::opt_str(contest), slug@));
    v
}

/// The path segments of a text file of a problem (before its `txt`
/// extension): beside the suite file, in the directory named after the
/// problem, then `dir` (`in` or `out`), then `name`.
pub fn text_file_segments(platform: Platform, contest: Option<&str>, slug: &str, dir: &str, name: &str) -> (r: Vec<String>)
    ensures
        string_seq_view(r@) == suite_segments_spec(platform, crate::config::opt_str(contest), slug@) + seq![dir@, name@],
{
    let mut v = suite_path_segments(platform, contest, slug);
    let ghost v0 = string_seq_view(v@);
    v.push(String::from_str(dir));
    v.push(String::from_str(name));
    assert(string_seq_view(v@) =~= v0 + seq![dir@, name@]);
    v
}

} // verus!
