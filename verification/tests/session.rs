use snowchains::cookies::{cookie_header_value, parse_cookie, SessionCookies};
use snowchains::session::{
    acceptable, echo_status_palette, filter_by_status, get_statuses, post_statuses, robots_statuses,
    robots_step, HttpSession, Palette, RobotsStep, SessionError, UrlBase,
};

fn local_session() -> HttpSession {
    let base = UrlBase::new("127.0.0.1".to_owned(), false, Some(2000));
    HttpSession::new(Some(base), Some(SessionCookies::new()))
}

#[test]
fn it_works() {
    let mut sess = local_session();
    assert_eq!(sess.robots_host().as_deref(), Some("127.0.0.1"));
    let robots = sess.request_url("/robots.txt").ok().unwrap();
    assert_eq!(robots.serialization, "http://127.0.0.1:2000/robots.txt");
    assert!(matches!(robots_step(200, None), RobotsStep::Store));
    sess.store_robots_txt("127.0.0.1".to_owned(), "User-agent: *\nDisallow: /sensitive".to_owned());
    let root = sess.request_url("/").ok().unwrap();
    assert_eq!(root.serialization, "http://127.0.0.1:2000/");
    let saved = sess.update_cookies(Some(vec!["foo=bar".to_owned()]), &root.serialization).ok().unwrap();
    assert!(saved.is_some());
    assert!(sess.has_cookie());
    assert_eq!(sess.cookies_to_header(), Some(vec![("foo".to_owned(), "bar".to_owned())]));
    assert!(sess.request_url("/nonexisting").is_ok());
    assert!(filter_by_status(acceptable(&[404]), 404).is_ok());
    assert!(filter_by_status(acceptable(&[]), 404).is_ok());
    assert!(matches!(sess.request_url("/sensitive"), Err(SessionError::ForbiddenByRobotsTxt)));
}

#[test]
fn absolute_urls_are_kept() {
    let sess = local_session();
    assert_eq!(sess.resolve_url("https://atcoder.jp/login").ok().unwrap().serialization, "https://atcoder.jp/login");
    let https = HttpSession::new(Some(UrlBase::new("atcoder.jp".to_owned(), true, None)), None);
    let u = https.resolve_url("/contests/arc100").ok().unwrap();
    assert_eq!(u.serialization, "https://atcoder.jp/contests/arc100");
    assert_eq!(u.host.as_deref(), Some("atcoder.jp"));
    assert_eq!(u.path, "/contests/arc100");
    let none = HttpSession::new(None, None);
    match none.resolve_url("/relative") {
        Err(SessionError::ParseUrl(t, _)) => assert_eq!(t, "/relative"),
        _ => panic!("a relative URL without a base parsed"),
    }
}

#[test]
fn statuses() {
    assert_eq!(get_statuses(), vec![200]);
    assert_eq!(post_statuses(), vec![302]);
    assert_eq!(robots_statuses(), vec![200, 301, 302, 404]);
    match filter_by_status(vec![200], 404) {
        Err(SessionError::UnexpectedStatusCode(e, s)) => {
            assert_eq!(e, vec![200]);
            assert_eq!(s, 404);
        }
        _ => panic!("404 accepted"),
    }
    assert_eq!(echo_status_palette(&vec![200], 200), Palette::Success);
    assert_eq!(echo_status_palette(&vec![], 200), Palette::Fatal);
}

#[test]
fn robots_txt_redirects() {
    assert!(matches!(robots_step(301, Some("https://a/robots.txt".to_owned())), RobotsStep::Follow(l) if l == "https://a/robots.txt"));
    assert!(matches!(robots_step(302, None), RobotsStep::Finish));
    assert!(matches!(robots_step(404, None), RobotsStep::Finish));
}

#[test]
fn cookies_are_saved_and_loaded() {
    let mut sess = local_session();
    assert!(!sess.has_cookie());
    sess.insert_cookie(parse_cookie("a=1; Path=/".to_owned()).ok().unwrap()).ok().unwrap();
    let bytes = sess.insert_cookie(parse_cookie("a=2".to_owned()).ok().unwrap()).ok().unwrap().unwrap();
    assert_eq!(sess.cookies_to_header(), Some(vec![("a".to_owned(), "2".to_owned())]));
    let loaded = SessionCookies::load(&bytes).ok().unwrap();
    assert_eq!(loaded.to_header(), vec![("a".to_owned(), "2".to_owned())]);
    let cleared = sess.clear_cookies().ok().unwrap().unwrap();
    assert!(!sess.has_cookie());
    assert_eq!(SessionCookies::load(&cleared).ok().unwrap().to_header(), vec![]);
    assert!(SessionCookies::load(&vec![]).ok().unwrap().to_header().is_empty());
    assert!(SessionCookies::load(&vec![1, 2, 3]).is_err());
}

#[test]
fn unreadable_set_cookie_is_reported_with_the_url() {
    let mut sess = local_session();
    match sess.update_cookies(Some(vec!["ok=1".to_owned(), "".to_owned()]), "http://127.0.0.1:2000/") {
        Err(SessionError::Cookie(snowchains::cookies::CookieError::ParseCookieFromUrl(c, u, _))) => {
            assert_eq!(c, "");
            assert_eq!(u, "http://127.0.0.1:2000/");
        }
        _ => panic!("an empty cookie was read"),
    }
    assert!(sess.has_cookie());
    assert_eq!(sess.update_cookies(None, "http://127.0.0.1:2000/").ok(), Some(None));
}

#[test]
fn cookie_header_joins_pairs() {
    assert_eq!(cookie_header_value(&vec![]), "");
    assert_eq!(
        cookie_header_value(&vec![("a".to_owned(), "1".to_owned()), ("b".to_owned(), "2".to_owned())]),
        "a=1; b=2"
    );
}

#[test]
fn sessions_without_a_jar_keep_no_cookies() {
    let mut sess = HttpSession::new(None, None);
    assert_eq!(sess.insert_cookie(parse_cookie("a=1".to_owned()).ok().unwrap()).ok(), Some(None));
    assert!(!sess.has_cookie());
    assert_eq!(sess.cookies_to_header(), None);
    assert_eq!(sess.clear_cookies().ok(), Some(None));
}

#[test]
fn urls_are_normalized_by_the_parser() {
    let sess = HttpSession::new(None, None);
    let u = sess.resolve_url("HTTPS://AtCoder.jp").ok().unwrap();
    assert_eq!(u.serialization, "https://atcoder.jp/");
    assert_eq!(u.path, "/");
    let u = sess.resolve_url("https://example.com/countries/viet nam").ok().unwrap();
    assert_eq!(u.path, "/countries/viet%20nam");
}

#[test]
fn stored_robots_txt_decides_for_its_host_only() {
    let mut sess = local_session();
    sess.store_robots_txt("127.0.0.1".to_owned(), "User-agent: *\nDisallow: /".to_owned());
    assert!(matches!(sess.request_url("/anything"), Err(SessionError::ForbiddenByRobotsTxt)));
    assert!(sess.request_url("http://example.com/anything").is_ok());
    sess.store_robots_txt("127.0.0.1".to_owned(), "User-agent: *\nAllow: /".to_owned());
    assert!(sess.request_url("/anything").is_ok());
}

#[test]
fn quoted_cookie_values_lose_a_pair_of_quotes_when_reloaded() {
    let mut sess = local_session();
    let bytes = sess.insert_cookie(parse_cookie("a=\"\"b\"\"".to_owned()).ok().unwrap()).ok().unwrap().unwrap();
    assert_eq!(sess.cookies_to_header(), Some(vec![("a".to_owned(), "\"b\"".to_owned())]));
    let loaded = SessionCookies::load(&bytes).ok().unwrap();
    assert_eq!(loaded.to_header(), vec![("a".to_owned(), "b".to_owned())]);
}

#[test]
fn html_bodies_are_read_as_documents() {
    let d = snowchains::session::html_document("<html><body><p>hi</p></body></html>");
    assert!(!d.nodes.is_empty());
}
