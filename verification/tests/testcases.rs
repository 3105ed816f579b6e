use snowchains::session::decimal_chars;
use snowchains::testcases::{
    attach_text_files, parse_u64, report, retrieve_targets, saved_file_name, suite_path_segments,
    text_file_segments, Additional, BatchCase, BatchTestSuite, ColorChoice, DetectedTarget,
    OptRetrieveTestcases, Platform, ReportColor, RetrieveTargets, TestSuite,
};

fn opt(service: Option<Platform>, contest: Option<&str>, problems: &[&str]) -> OptRetrieveTestcases {
    OptRetrieveTestcases {
        json: false,
        config: None,
        color: ColorChoice::Auto,
        service,
        contest: contest.map(|s| s.to_owned()),
        problems: problems.iter().map(|s| s.to_string()).collect(),
    }
}

fn detected(service: Option<&str>, contest: Option<&str>, problem: Option<&str>) -> DetectedTarget {
    DetectedTarget {
        service: service.map(|s| s.to_owned()),
        contest: contest.map(|s| s.to_owned()),
        problem: problem.map(|s| s.to_owned()),
    }
}

#[test]
fn parse_u64_reads_as_std_does() {
    for s in ["0", "7", "+5", "", "+", "-1", "12a", " 1", "18446744073709551615", "18446744073709551616", "0042"] {
        assert_eq!(parse_u64(s), s.parse::<u64>().ok(), "{:?}", s);
    }
}

#[test]
fn decimal_text_parses_back() {
    for n in [0u64, 9, 10, 1234567890, u64::MAX] {
        let text: String = decimal_chars(n).into_iter().collect();
        assert_eq!(text, n.to_string());
        assert_eq!(parse_u64(&text), Some(n));
    }
}

#[test]
fn service_is_required() {
    let r = retrieve_targets(&opt(None, Some("abc001"), &[]), &detected(None, None, None));
    assert_eq!(r.err(), Some("`service` is not specified".to_owned()));
    let r = retrieve_targets(&opt(None, None, &[]), &detected(Some("AtCoder"), None, None));
    assert_eq!(
        r.err(),
        Some("Specified invalid `service` by `detectServiceFromRelativePathSegments`".to_owned())
    );
}

#[test]
fn atcoder_needs_a_contest() {
    let r = retrieve_targets(&opt(Some(Platform::Atcoder), None, &["a"]), &detected(None, None, None));
    assert_eq!(r.err(), Some("`contest` is required for AtCoder".to_owned()));
    match retrieve_targets(&opt(None, None, &[]), &detected(Some("atcoder"), Some("abc001"), Some("b"))) {
        Ok((Platform::Atcoder, RetrieveTargets::Atcoder { contest, problems })) => {
            assert_eq!(contest, "abc001");
            assert_eq!(problems, Some(vec!["b".to_owned()]));
        }
        _ => panic!("unexpected targets"),
    }
}

#[test]
fn given_problems_win_over_the_detected_one() {
    match retrieve_targets(&opt(Some(Platform::Atcoder), Some("arc100"), &["c", "d"]), &detected(None, Some("abc001"), Some("b"))) {
        Ok((_, RetrieveTargets::Atcoder { contest, problems })) => {
            assert_eq!(contest, "arc100");
            assert_eq!(problems, Some(vec!["c".to_owned(), "d".to_owned()]));
        }
        _ => panic!("unexpected targets"),
    }
}

#[test]
fn codeforces_contest_is_a_number() {
    let r = retrieve_targets(&opt(Some(Platform::Codeforces), Some("abc"), &[]), &detected(None, None, None));
    assert_eq!(r.err(), Some("`contest` for Codeforces must be 64-bit unsigned integer".to_owned()));
    let r = retrieve_targets(&opt(Some(Platform::Codeforces), None, &[]), &detected(None, None, None));
    assert_eq!(r.err(), Some("`contest` is required for Codeforces".to_owned()));
    match retrieve_targets(&opt(Some(Platform::Codeforces), Some("1234"), &[]), &detected(None, None, None)) {
        Ok((_, RetrieveTargets::Codeforces { contest_id, problems })) => {
            assert_eq!(contest_id, 1234);
            assert_eq!(problems, None);
        }
        _ => panic!("unexpected targets"),
    }
}

#[test]
fn yukicoder_takes_a_contest_or_problem_numbers() {
    let r = retrieve_targets(&opt(Some(Platform::Yukicoder), None, &[]), &detected(None, None, None));
    assert_eq!(r.err(), Some("`contest` or `problem`s are required for yukicoder".to_owned()));
    let r = retrieve_targets(&opt(Some(Platform::Yukicoder), None, &["1", "x"]), &detected(None, None, None));
    assert_eq!(r.err(), Some("`problem`s for yukicoder must be unsigned integer".to_owned()));
    match retrieve_targets(&opt(Some(Platform::Yukicoder), None, &["1", "+22"]), &detected(None, None, None)) {
        Ok((_, RetrieveTargets::YukicoderProblems { nos })) => assert_eq!(nos, vec![1, 22]),
        _ => panic!("unexpected targets"),
    }
    match retrieve_targets(&opt(Some(Platform::Yukicoder), Some("276"), &[]), &detected(None, None, None)) {
        Ok((_, RetrieveTargets::YukicoderContest { contest, problems })) => {
            assert_eq!(contest, "276");
            assert_eq!(problems, None);
        }
        _ => panic!("unexpected targets"),
    }
}

fn batch(n: usize) -> TestSuite {
    TestSuite::Batch(BatchTestSuite {
        timelimit_ms: Some(2000),
        cases: (0..n)
            .map(|i| BatchCase { name: Some(format!("{}", i)), input: "1\n".to_owned(), output: None })
            .collect(),
        extend: vec![],
    })
}

#[test]
fn reports_count_cases() {
    assert_eq!(report(&batch(0), 0), ("no test cases".to_owned(), ReportColor::Yellow));
    assert_eq!(report(&batch(1), 0), ("1 test case".to_owned(), ReportColor::Green));
    assert_eq!(report(&batch(0), 1), ("1 test case".to_owned(), ReportColor::Green));
    assert_eq!(report(&batch(3), 10), ("13 test cases".to_owned(), ReportColor::Green));
    assert_eq!(
        report(&TestSuite::Interactive { timelimit_ms: None }, 0),
        ("interactive problem".to_owned(), ReportColor::Yellow)
    );
    assert_eq!(report(&TestSuite::Unsubmittable, 2), ("unsubmittable problem".to_owned(), ReportColor::Yellow));
}

#[test]
fn text_files_replace_the_cases() {
    match attach_text_files(batch(3), "a", true) {
        TestSuite::Batch(b) => {
            assert!(b.cases.is_empty());
            assert_eq!(b.timelimit_ms, Some(2000));
            assert_eq!(b.extend.len(), 1);
            let Additional::Text { base, input, output, timelimit_ms, match_kind } = &b.extend[0];
            assert_eq!(base, "./a");
            assert_eq!(input, "/in/*.txt");
            assert_eq!(output, "/out/*.txt");
            assert_eq!(*timelimit_ms, None);
            assert_eq!(*match_kind, None);
        }
        _ => panic!("not a batch suite"),
    }
    match attach_text_files(batch(3), "a", false) {
        TestSuite::Batch(b) => assert_eq!(b.cases.len(), 3),
        _ => panic!("not a batch suite"),
    }
    assert_eq!(report(&attach_text_files(batch(3), "a", true), 2).0, "2 test cases");
}

#[test]
fn paths_of_suites_and_text_files() {
    assert_eq!(
        suite_path_segments(Platform::Atcoder, Some("abc001"), "ProblemA"),
        vec![".snowchains", "tests", "atcoder", "abc001", "problem-a"]
    );
    assert_eq!(
        suite_path_segments(Platform::Yukicoder, None, "100"),
        vec![".snowchains", "tests", "yukicoder", "", "100"]
    );
    assert_eq!(
        text_file_segments(Platform::Codeforces, Some("1000"), "A", "in", "sample1"),
        vec![".snowchains", "tests", "codeforces", "1000", "a", "in", "sample1"]
    );
    assert_eq!(saved_file_name("a"), "{a.yml, a/}");
}

#[test]
fn platforms_are_named_in_kebab_case() {
    assert_eq!(Platform::parse("codeforces"), Some(Platform::Codeforces));
    assert_eq!(Platform::parse("Codeforces"), None);
    assert_eq!(Platform::Yukicoder.to_kebab_case_str(), "yukicoder");
}
