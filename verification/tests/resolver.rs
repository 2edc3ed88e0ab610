//! Route Resolver behaviour: prefix normalization, route matching, and
//! target-URL validation.

use proxy_core::route::{match_route, normalize_prefix, resolve_target};
use proxy_core::ProxyError;

fn bytes(s: &str) -> Vec<u8> {
    s.as_bytes().to_vec()
}

#[test]
fn normalize_trims_both_ends() {
    assert_eq!(normalize_prefix(&bytes("/proxy/")), bytes("proxy"));
    assert_eq!(normalize_prefix(&bytes("proxy")), bytes("proxy"));
    assert_eq!(normalize_prefix(&bytes("//proxy//")), bytes("proxy"));
}

#[test]
fn normalize_keeps_inner_separators() {
    assert_eq!(normalize_prefix(&bytes("/api/v1/")), bytes("api/v1"));
}

#[test]
fn normalize_of_only_separators_is_empty() {
    assert_eq!(normalize_prefix(&bytes("/")), bytes(""));
    assert_eq!(normalize_prefix(&bytes("///")), bytes(""));
    assert_eq!(normalize_prefix(&bytes("")), bytes(""));
}

#[test]
fn match_captures_remainder_under_prefix() {
    let r = match_route(&bytes("/proxy/https://example.com/x?q=1"), &bytes("proxy"));
    assert_eq!(r, Some(bytes("https://example.com/x?q=1")));
}

#[test]
fn match_captures_remainder_at_root() {
    let r = match_route(&bytes("/https://example.com"), &bytes(""));
    assert_eq!(r, Some(bytes("https://example.com")));
}

#[test]
fn match_rejects_other_prefix() {
    assert_eq!(match_route(&bytes("/other/x"), &bytes("proxy")), None);
}

#[test]
fn match_rejects_empty_remainder() {
    assert_eq!(match_route(&bytes("/proxy/"), &bytes("proxy")), None);
    assert_eq!(match_route(&bytes("/"), &bytes("")), None);
}

#[test]
fn match_requires_separator_after_prefix() {
    assert_eq!(match_route(&bytes("/proxyx/y"), &bytes("proxy")), None);
}

#[test]
fn match_requires_leading_separator() {
    assert_eq!(match_route(&bytes("proxy/x"), &bytes("proxy")), None);
}

#[test]
fn resolve_accepts_absolute_url() {
    let t = resolve_target(&bytes("https://example.com/path?q=1")).unwrap();
    assert_eq!(t.text, bytes("https://example.com/path?q=1"));
}

#[test]
fn resolve_strips_one_leading_slash() {
    let t = resolve_target(&bytes("/https://example.com/path")).unwrap();
    assert_eq!(t.text, bytes("https://example.com/path"));
}

#[test]
fn resolve_renders_canonical_text() {
    // The scheme is canonicalized and an empty path is rendered as `/`:
    // the resolver hands back the parsed rendering, not its input.
    let t = resolve_target(&bytes("HTTP://example.com/x")).unwrap();
    assert_eq!(t.text, bytes("http://example.com/x"));
    let t = resolve_target(&bytes("https://example.com")).unwrap();
    assert_eq!(t.text, bytes("https://example.com/"));
}

#[test]
fn resolve_rejects_non_urls() {
    assert_eq!(resolve_target(&bytes("not a url")).unwrap_err(), ProxyError::InvalidTarget);
    assert_eq!(resolve_target(&bytes("")).unwrap_err(), ProxyError::InvalidTarget);
}

#[test]
fn resolve_rejects_relative_targets() {
    // No scheme or no authority: not an absolute URL.
    assert_eq!(resolve_target(&bytes("/nope")).unwrap_err(), ProxyError::InvalidTarget);
    assert_eq!(resolve_target(&bytes("example.com/path")).unwrap_err(), ProxyError::InvalidTarget);
    assert_eq!(resolve_target(&bytes("/relative/path")).unwrap_err(), ProxyError::InvalidTarget);
}

#[test]
fn mounted_valid_url_round_trips() {
    // A valid absolute URL placed under the mounted prefix resolves to
    // exactly that URL.
    let prefix = normalize_prefix(&bytes("/proxy/"));
    let url = "https://example.com/a/b?q=1";
    let path = bytes(&format!("/proxy/{url}"));
    let rem = match_route(&path, &prefix).unwrap();
    let t = resolve_target(&rem).unwrap();
    assert_eq!(t.text, bytes(url));
}
