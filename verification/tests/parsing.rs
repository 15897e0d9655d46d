use rbuster::compose::dns_target;
use rbuster::compose::join_url;
use rbuster::compose::substitute;
use rbuster::compose::vhost_host;
use rbuster::http::parse_headers;
use rbuster::http::HttpConfig;
use rbuster::text::parse_u16;
use rbuster::text::split_header;
use rbuster::text::trim_str;
use rbuster::wordlist::filter_candidates;

#[test]
fn trim_removes_edges_only() {
    assert_eq!(trim_str("  admin  "), "admin");
    assert_eq!(trim_str("\t a b \r\n"), "a b");
    assert_eq!(trim_str(""), "");
    assert_eq!(trim_str(" \t \n"), "");
    assert_eq!(trim_str("plain"), "plain");
}

#[test]
fn trim_covers_unicode_whitespace() {
    assert_eq!(trim_str("\u{000C}word\u{00A0}"), "word");
    assert_eq!(trim_str("\u{2028}\u{3000}x\u{205F}"), "x");
    assert_eq!(trim_str("\u{000B}\u{0085}"), "");
    // Matches std's trim on the same input.
    let raw = "\u{1680} mixed \u{200A}";
    assert_eq!(trim_str(raw), raw.trim());
}

#[test]
fn count_words_and_lines_match_std() {
    for body in [
        "",
        "one",
        "  two  words \n",
        "a\nb\nc",
        "a\nb\n",
        "\n\n",
        "tab\tsep\u{00A0}nbsp",
    ] {
        assert_eq!(rbuster::text::count_words(body), body.split_whitespace().count());
        assert_eq!(rbuster::text::count_lines(body), body.lines().count());
    }
}

#[test]
fn split_header_at_first_colon() {
    assert_eq!(
        split_header("Content-Type: text/html"),
        Some(("Content-Type".to_string(), "text/html".to_string()))
    );
    assert_eq!(
        split_header("X-A: b: c"),
        Some(("X-A".to_string(), "b: c".to_string()))
    );
    assert_eq!(split_header("no colon here"), None);
    assert_eq!(split_header(":v"), Some(("".to_string(), "v".to_string())));
}

#[test]
fn parse_headers_drops_malformed() {
    let input = vec![
        "Content-Type: text/html".to_string(),
        "X-Custom:  v ".to_string(),
        "bad".to_string(),
        "Cookie: a=b".to_string(),
    ];
    let pairs = parse_headers(&input);
    assert_eq!(pairs.len(), 3);
    assert_eq!(pairs[0], ("Content-Type".to_string(), "text/html".to_string()));
    assert_eq!(pairs[1], ("X-Custom".to_string(), "v".to_string()));
    assert_eq!(pairs[2], ("Cookie".to_string(), "a=b".to_string()));
}

#[test]
fn parse_headers_last_value_wins_per_key() {
    let input = vec![
        "Accept: text/plain".to_string(),
        "Cookie: a=1".to_string(),
        "Accept: application/json".to_string(),
    ];
    let pairs = parse_headers(&input);
    assert_eq!(pairs.len(), 2);
    assert_eq!(pairs[0], ("Accept".to_string(), "application/json".to_string()));
    assert_eq!(pairs[1], ("Cookie".to_string(), "a=1".to_string()));
}

#[test]
fn filter_candidates_numbers_kept_lines() {
    let lines = vec![
        "  spaced  ".to_string(),
        "#comment".to_string(),
        "".to_string(),
        "   ".to_string(),
        "word".to_string(),
    ];
    let cands = filter_candidates(&lines);
    assert_eq!(cands.len(), 2);
    assert_eq!(cands[0].index, 0);
    assert_eq!(cands[0].word, "spaced");
    assert_eq!(cands[1].index, 1);
    assert_eq!(cands[1].word, "word");
}

#[test]
fn filter_candidates_empty_list() {
    let lines: Vec<String> = vec![];
    assert!(filter_candidates(&lines).is_empty());
}

#[test]
fn join_url_strips_trailing_slashes() {
    assert_eq!(join_url("http://x.example//", "admin"), "http://x.example/admin");
    assert_eq!(join_url("http://x.example", "admin"), "http://x.example/admin");
}

#[test]
fn parse_u16_accepts_digit_strings_only() {
    assert_eq!(parse_u16("404"), Some(404));
    assert_eq!(parse_u16("0"), Some(0));
    assert_eq!(parse_u16("0404"), Some(404));
    assert_eq!(parse_u16("65535"), Some(65535));
    assert_eq!(parse_u16("65536"), None);
    assert_eq!(parse_u16("99999999999"), None);
    assert_eq!(parse_u16(""), None);
    assert_eq!(parse_u16("4a4"), None);
    assert_eq!(parse_u16(" 404"), None);
    assert_eq!(parse_u16("-1"), None);
}

#[test]
fn substitute_replaces_every_placeholder() {
    assert_eq!(
        substitute("http://h/FUZZ/x?q=FUZZ", "FUZZ", "admin"),
        "http://h/admin/x?q=admin"
    );
    assert_eq!(substitute("no placeholder", "FUZZ", "w"), "no placeholder");
    assert_eq!(substitute("FUZZFUZZ", "FUZZ", "a"), "aa");
    assert_eq!(substitute("aFU", "FUZZ", "x"), "aFU");
    assert_eq!(substitute("abc", "", "x"), "abc");
    assert_eq!(substitute("FUZZ", "FUZZ", ""), "");
}

#[test]
fn dns_and_vhost_targets() {
    assert_eq!(dns_target("www", "example.com"), "www.example.com");
    assert_eq!(vhost_host("dev", "example.com", true), "dev.example.com");
    assert_eq!(vhost_host("dev", "example.com", false), "dev");
}

#[test]
fn http_config_defaults() {
    let c = HttpConfig::default();
    assert_eq!(c.user_agent, "rbuster/1.0");
    assert_eq!(c.timeout_ms, 10000);
    assert!(!c.insecure);
    assert!(!c.follow_redirect);
    assert!(c.proxy.is_none());
    assert!(c.headers.is_empty());
    assert!(c.cookies.is_none());
    assert!(c.username.is_none());
    assert!(c.password.is_none());
}
