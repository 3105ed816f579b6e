use snowchains::ServiceName;

#[test]
fn as_str_gives_lowercase_names() {
    assert_eq!(ServiceName::AtCoder.as_str(), "atcoder");
    assert_eq!(ServiceName::AtCoderBeta.as_str(), "atcoderbeta");
    assert_eq!(ServiceName::HackerRank.as_str(), "hackerrank");
    assert_eq!(ServiceName::HackerRank.to_string(), "hackerrank");
}

#[test]
fn parse_ignores_case() {
    assert_eq!(ServiceName::parse("AtCoder"), Ok(ServiceName::AtCoder));
    assert_eq!(ServiceName::parse("ATCODERBETA"), Ok(ServiceName::AtCoderBeta));
    assert_eq!("hackerrank".parse::<ServiceName>(), Ok(ServiceName::HackerRank));
}

#[test]
fn parse_rejects_unknown_names() {
    assert_eq!(
        ServiceName::parse("yukicoder"),
        Err("Unsupported service name: \"yukicoder\"".to_owned())
    );
    assert_eq!(
        ServiceName::parse("a\"b"),
        Err("Unsupported service name: \"a\\\"b\"".to_owned())
    );
}

#[test]
fn parse_gives_back_each_name() {
    for s in [ServiceName::AtCoder, ServiceName::AtCoderBeta, ServiceName::HackerRank] {
        assert_eq!(ServiceName::parse(s.as_str()), Ok(s));
    }
}
