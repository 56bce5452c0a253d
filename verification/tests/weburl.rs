use million::weburl::{normalize_all, normalize_url, url_texts, WebUrl};

fn resolve(raw: &str, base: &str) -> Option<String> {
    let base = WebUrl::parse(base).unwrap();
    normalize_url(raw, &base).map(|url| url.into_string())
}

#[test]
fn parse_accepts_absolute_urls_only() {
    assert!(WebUrl::parse("https://example.com/").is_some());
    assert!(WebUrl::parse("http://example.com/a?b=c#d").is_some());
    assert!(WebUrl::parse("ftp://example.com/file").is_some());
    assert!(WebUrl::parse("").is_none());
    assert!(WebUrl::parse("/about").is_none());
    assert!(WebUrl::parse("example.com").is_none());
    assert!(WebUrl::parse("https://").is_none());
    assert!(WebUrl::parse("not a url").is_none());
}

#[test]
fn parse_gives_the_text_of_the_url() {
    assert_eq!(WebUrl::parse("https://example.com").unwrap().as_str(), "https://example.com/");
    assert_eq!(
        WebUrl::parse("HTTPS://EXAMPLE.com/a/../b#x").unwrap().into_string(),
        "https://example.com/b#x"
    );
}

#[test]
fn normalize_resolves_against_base() {
    let base = "https://example.com/a/b.html";
    assert_eq!(resolve("/about", base), Some("https://example.com/about".to_string()));
    assert_eq!(resolve("c.png", base), Some("https://example.com/a/c.png".to_string()));
    assert_eq!(resolve("../up", base), Some("https://example.com/up".to_string()));
    assert_eq!(resolve("//eve.com/b", base), Some("https://eve.com/b".to_string()));
    assert_eq!(resolve("http://eve.com/b", base), Some("http://eve.com/b".to_string()));
    assert_eq!(resolve("", base), Some("https://example.com/a/b.html".to_string()));
    assert_eq!(resolve("?q=1", base), Some("https://example.com/a/b.html?q=1".to_string()));
}

#[test]
fn normalize_clears_the_fragment() {
    let base = "https://example.com/";
    assert_eq!(resolve("https://c/#frag", base), Some("https://c/".to_string()));
    assert_eq!(resolve("#top", base), Some("https://example.com/".to_string()));
    assert_eq!(resolve("/a?b#c", base), Some("https://example.com/a?b".to_string()));
    assert_eq!(
        resolve("x", "https://example.com/dir/page#here"),
        Some("https://example.com/dir/x".to_string())
    );
}

#[test]
fn normalize_rejects_what_cannot_be_resolved() {
    assert_eq!(resolve("https://", "https://example.com/"), None);
    assert_eq!(resolve("http://exa mple.com/", "https://example.com/"), None);
    assert_eq!(resolve("/path", "mailto:someone@example.com"), None);
}

#[test]
fn normalize_does_not_filter_schemes() {
    let base = "https://example.com/";
    assert_eq!(resolve("mailto:a@b.c", base), Some("mailto:a@b.c".to_string()));
    assert_eq!(resolve("javascript:void(0)", base), Some("javascript:void(0)".to_string()));
}

#[test]
fn normalize_all_drops_failures_and_keeps_order() {
    let raws = vec![
        "/b".to_string(),
        "https://".to_string(),
        "https://c/#frag".to_string(),
        "a".to_string(),
    ];
    let base = WebUrl::parse("https://example.com/x/").unwrap();
    assert_eq!(
        url_texts(normalize_all(&raws, &base)),
        vec![
            "https://example.com/b".to_string(),
            "https://c/".to_string(),
            "https://example.com/x/a".to_string(),
        ]
    );
    assert!(normalize_all(&vec![], &base).is_empty());
    let opaque = WebUrl::parse("mailto:someone@example.com").unwrap();
    assert_eq!(url_texts(normalize_all(&raws, &opaque)), vec!["https://c/".to_string()]);
}
