use focus_sentinel::config::Config;
use focus_sentinel::decision::{check_url, is_whitelisted, matches_domain, starts_with};
use focus_sentinel::message::Response;

fn config(is_active: bool, domains: &[&str]) -> Config {
    Config { is_active, whitelist: domains.iter().map(|d| d.to_string()).collect() }
}

fn is_allow(resp: &Response) -> bool {
    matches!(resp, Response::CheckResult { action, redirect: None } if action == "ALLOW")
}

fn is_block(resp: &Response) -> bool {
    matches!(resp, Response::CheckResult { action, redirect: Some(to) }
        if action == "BLOCK" && to == "blocked.html")
}

#[test]
fn test_check_url_whitelist() {
    let config = Config {
        is_active: true,
        whitelist: vec!["google.com".to_string(), "example.com".to_string()],
    };

    let resp = check_url("https://google.com", &config);
    assert!(matches!(resp, Response::CheckResult { action, .. } if action == "ALLOW"));

    let resp = check_url("https://mail.google.com", &config);
    assert!(matches!(resp, Response::CheckResult { action, .. } if action == "ALLOW"));

    let resp = check_url("https://facebook.com", &config);
    assert!(matches!(resp, Response::CheckResult { action, .. } if action == "BLOCK"));

    let resp = check_url("https://notgoogle.com", &config);
    assert!(matches!(resp, Response::CheckResult { action, .. } if action == "BLOCK"));
}

#[test]
fn test_check_url_inactive() {
    let config = Config {
        is_active: false,
        whitelist: vec!["google.com".to_string()],
    };
    let resp = check_url("https://facebook.com", &config);
    assert!(matches!(resp, Response::CheckResult { action, .. } if action == "ALLOW"));
}

#[test]
fn inactive_allows_unparsable_and_empty_urls() {
    let c = config(false, &[]);
    assert!(is_allow(&check_url("not a url", &c)));
    assert!(is_allow(&check_url("", &c)));
}

#[test]
fn internal_pages_always_pass() {
    let c = config(true, &[]);
    assert!(is_allow(&check_url("chrome-extension://abcdef/blocked.html", &c)));
    assert!(is_allow(&check_url("chrome://settings", &c)));
    assert!(is_block(&check_url("chrome-ext://x", &c)));
}

#[test]
fn unparsable_url_is_blocked_when_active() {
    let c = config(true, &["google.com"]);
    assert!(is_block(&check_url("google.com", &c)));
    assert!(is_block(&check_url("not a url", &c)));
}

#[test]
fn host_is_taken_from_the_url() {
    let c = config(true, &["google.com"]);
    assert!(is_allow(&check_url("https://mail.google.com:8443/inbox?x=1", &c)));
    assert!(is_allow(&check_url("HTTPS://MAIL.GOOGLE.COM/", &c)));
    assert!(is_block(&check_url("https://google.com.evil.net/", &c)));
}

#[test]
fn localhost_entry_matches() {
    let c = config(true, &["localhost"]);
    assert!(is_allow(&check_url("http://localhost:3000/", &c)));
}

#[test]
fn evil_lookalike_is_blocked() {
    let c = config(true, &["google.com"]);
    assert!(is_allow(&check_url("https://mail.google.com", &c)));
    assert!(is_block(&check_url("https://evil-google.com", &c)));
}

#[test]
fn domain_matching_rules() {
    assert!(matches_domain("google.com", "google.com"));
    assert!(matches_domain("mail.google.com", "google.com"));
    assert!(matches_domain("a.b.google.com", "google.com"));
    assert!(!matches_domain("notgoogle.com", "google.com"));
    assert!(!matches_domain("evil-google.com", "google.com"));
    assert!(!matches_domain("google.com", "le.com"));
    assert!(!matches_domain("google.com", ".google.com"));
    assert!(matches_domain("x..google.com", ".google.com"));
    assert!(!matches_domain("com", "google.com"));
    assert!(!matches_domain(".google.com", "mail.google.com"));
    assert!(matches_domain(".google.com", "google.com"));
    assert!(!matches_domain("", "google.com"));
    assert!(matches_domain("", ""));
}

#[test]
fn whitelist_scan() {
    let wl = vec!["a.org".to_string(), "github.com".to_string()];
    assert!(is_whitelisted("gist.github.com", &wl));
    assert!(is_whitelisted("a.org", &wl));
    assert!(!is_whitelisted("b.org", &wl));
    assert!(!is_whitelisted("github.com", &Vec::new()));
}

#[test]
fn prefix_check() {
    assert!(starts_with("chrome://newtab", "chrome://"));
    assert!(starts_with("abc", ""));
    assert!(!starts_with("chrome:", "chrome://"));
    assert!(!starts_with("https://chrome://", "chrome://"));
}
