use youtui::auth::{Auth, AuthError, BrowserToken, OUTDATED_BROWSER_NOTICE};
use youtui::json::Json;
use youtui::json_text::json_to_string;
use youtui::text::{decimal_string, str_contains, trim_str};
use youtui::ui::{AppStatus, UIAction, WindowContext, YoutuiWindow};

const PAGE: &str = "<script>ytcfg.set({\"INNERTUBE_CLIENT_VERSION\":\"1.20240101.01.00\",\"X\":1})</script>";

#[test]
fn token_from_cookie_and_page() {
    let cookie = "  \n HSID=abc; SAPISID=xyz/123; SID=q \n";
    let t = BrowserToken::from_page(cookie, PAGE).unwrap();
    assert_eq!(t.sapisid, "xyz/123");
    assert_eq!(t.client_version, "1.20240101.01.00");
    assert_eq!(t.cookies, "HSID=abc; SAPISID=xyz/123; SID=q");
    assert_eq!(BrowserToken::cookie_header(cookie), "HSID=abc; SAPISID=xyz/123; SID=q");
}

#[test]
fn outdated_browser_is_refused() {
    let page = format!("<p>{}</p>{}", OUTDATED_BROWSER_NOTICE, PAGE);
    assert_eq!(
        BrowserToken::from_page("SAPISID=a;", &page).unwrap_err(),
        AuthError::ExpiredUserAgent
    );
}

#[test]
fn missing_header_values() {
    // No client version in the page.
    assert_eq!(BrowserToken::from_page("SAPISID=a;", "<html>").unwrap_err(), AuthError::Header);
    // A version key without its closing quote.
    assert_eq!(
        BrowserToken::from_page("SAPISID=a;", "INNERTUBE_CLIENT_VERSION\":\"1.2").unwrap_err(),
        AuthError::Header
    );
    // No SAPISID in the cookie.
    assert_eq!(BrowserToken::from_page("SID=a;", PAGE).unwrap_err(), AuthError::Header);
    // The SAPISID is the last cookie: it has no `;` after it.
    assert_eq!(BrowserToken::from_page("SID=a; SAPISID=b", PAGE).unwrap_err(), AuthError::Header);
}

#[test]
fn unauthenticated_client_has_no_token() {
    let auth = Auth::default();
    assert_eq!(auth, Auth::Unauthenticated);
    assert_eq!(auth.token().unwrap_err(), AuthError::NotAuthenticated);
    let t = BrowserToken::from_page("SAPISID=k;", PAGE).unwrap();
    let auth = Auth::Browser(t.clone());
    assert_eq!(auth.token().unwrap(), &t);
}

#[test]
fn text_helpers() {
    assert_eq!(trim_str("\t a b \u{3000}"), "a b");
    assert_eq!(trim_str(" \n "), "");
    assert_eq!(decimal_string(0), "0");
    assert_eq!(decimal_string(340282366920938463463374607431768211455), "340282366920938463463374607431768211455");
    assert!(str_contains("abcabd", "abd"));
    assert!(!str_contains("ab", "abc"));
}

#[test]
fn window_contexts() {
    let mut w = YoutuiWindow::new();
    assert_eq!(w.get_status(), AppStatus::Running);
    assert_eq!(w.context, WindowContext::Browser);
    assert!(!w.key_pending());
    w.change_context(WindowContext::Playlist);
    assert_eq!(w.context, WindowContext::Playlist);
    assert_eq!(w.prev_context, WindowContext::Browser);
    w.change_context(WindowContext::Logs);
    assert_eq!(w.prev_context, WindowContext::Playlist);
    w.revert_context();
    assert_eq!(w.context, WindowContext::Playlist);
    assert_eq!(w.prev_context, WindowContext::Logs);
    w.revert_context();
    assert_eq!(w.context, WindowContext::Logs);
    w.quit();
    assert_eq!(w.get_status(), AppStatus::Exiting);
    assert_eq!(w.context, WindowContext::Logs);
}

#[test]
fn actions_describe_themselves() {
    assert_eq!(UIAction::Quit.describe(), "Quit");
    assert_eq!(UIAction::StepVolUp.describe(), "StepVolUp");
    assert_eq!(UIAction::StepVolDown.describe(), "StepVolDown");
    assert_eq!(UIAction::Next.describe(), "Next");
    assert_eq!(UIAction::Prev.describe(), "Prev");
    assert_eq!(UIAction::Quit.context(), "");
}

fn token(version: &str) -> BrowserToken {
    BrowserToken {
        sapisid: "sid".to_string(),
        client_version: version.to_string(),
        cookies: "SAPISID=sid; A=b".to_string(),
    }
}

#[test]
fn request_body_of_a_query() {
    let t = token("1.20240101");
    let header = vec![
        ("browseId".to_string(), Json::Str("FEmusic_liked_playlists".to_string())),
        ("query".to_string(), Json::Str("x".to_string())),
    ];
    let body = t.request_body(header, Some("p1".to_string()));
    assert_eq!(
        json_to_string(&body),
        "{\"context\":{\"client\":{\"clientName\":\"WEB_REMIX\",\"clientVersion\":\"1.20240101\"}},\"browseId\":\"FEmusic_liked_playlists\",\"query\":\"x\",\"params\":\"p1\"}"
    );
    let repeated = vec![
        ("a".to_string(), Json::Int(1)),
        ("params".to_string(), Json::Null),
        ("a".to_string(), Json::Int(2)),
    ];
    let body = t.request_body(repeated, Some("q".to_string()));
    assert_eq!(
        json_to_string(&body),
        "{\"context\":{\"client\":{\"clientName\":\"WEB_REMIX\",\"clientVersion\":\"1.20240101\"}},\"a\":2,\"params\":\"q\"}"
    );
    let body = t.request_body(vec![], None);
    assert_eq!(
        json_to_string(&body),
        "{\"context\":{\"client\":{\"clientName\":\"WEB_REMIX\",\"clientVersion\":\"1.20240101\"}}}"
    );
}

#[test]
fn request_headers_of_a_query() {
    let t = token("1");
    let h = t.request_headers("123_abc");
    let expected: Vec<(String, String)> = vec![
        ("Content-Type".to_string(), "application/json".to_string()),
        ("Authorization".to_string(), "SAPISIDHASH 123_abc".to_string()),
        ("X-Origin".to_string(), "https://music.youtube.com".to_string()),
        ("Cookie".to_string(), "SAPISID=sid; A=b".to_string()),
    ];
    assert_eq!(h, expected);
}

#[test]
fn trimming_twice_is_trimming_once() {
    for s in ["  a b  ", "x", "", " \t\n", "\u{2028}cookie=1;\u{3000}"] {
        let once = trim_str(s);
        assert_eq!(trim_str(&once), once);
        assert_eq!(BrowserToken::cookie_header(&once), once);
    }
}

#[test]
fn body_starts_with_the_client_context() {
    let t = token("7.1");
    let body = t.request_body(
        vec![("browseId".to_string(), Json::Null), ("params".to_string(), Json::Null)],
        Some("p".to_string()),
    );
    match body {
        Json::Object(fields) => {
            assert_eq!(fields[0].0, "context");
            assert_eq!(
                json_to_string(&fields[0].1),
                "{\"client\":{\"clientName\":\"WEB_REMIX\",\"clientVersion\":\"7.1\"}}"
            );
            assert_eq!(fields.len(), 3);
            assert_eq!(fields[2].0, "params");
        }
        other => panic!("not an object: {:?}", other),
    }
}
