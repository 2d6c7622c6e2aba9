use oembed_rs::{find_provider, matches_scheme, Endpoint, Provider, Registry};

fn endpoint(schemes: &[&str], url: &str, discovery: bool) -> Endpoint {
    Endpoint {
        schemes: schemes.iter().map(|s| s.to_string()).collect(),
        url: url.to_string(),
        discovery,
    }
}

fn provider(name: &str, url: &str, endpoints: Vec<Endpoint>) -> Provider {
    Provider {
        provider_name: name.to_string(),
        provider_url: url.to_string(),
        endpoints,
    }
}

fn registry() -> Registry {
    Registry::new(vec![
        provider(
            "Twitter",
            "http://www.twitter.com/",
            vec![endpoint(
                &[
                    "https://twitter.com/*",
                    "https://twitter.com/*/status/*",
                    "https://*.twitter.com/*/status/*",
                ],
                "https://publish.twitter.com/oembed",
                false,
            )],
        ),
        provider(
            "Vimeo",
            "https://vimeo.com/",
            vec![endpoint(
                &[
                    "https://vimeo.com/*",
                    "https://vimeo.com/album/*/video/*",
                    "https://player.vimeo.com/video/*",
                ],
                "https://vimeo.com/api/oembed.json",
                false,
            )],
        ),
        provider(
            "YouTube",
            "https://www.youtube.com/",
            vec![endpoint(
                &[
                    "https://*.youtube.com/watch*",
                    "https://*.youtube.com/v/*",
                    "https://youtu.be/*",
                    "https://*.youtube.com/playlist?list=*",
                    "https://youtube.com/playlist?list=*",
                    "https://*.youtube.com/shorts*",
                ],
                "https://www.youtube.com/oembed",
                false,
            )],
        ),
    ])
    .unwrap()
}

#[test]
fn test_twitter_provider() {
    let registry = registry();
    let url = "https://twitter.com/user/status/1640004220000000000?s=20";
    let (provider, endpoint) = find_provider(&registry, url).unwrap();

    assert_eq!(provider.provider_name, "Twitter");
    assert_eq!(endpoint.url, "https://publish.twitter.com/oembed");
}

#[test]
fn test_youtube_provider() {
    let registry = registry();
    let url = "https://youtu.be/rAn0MId";
    let (provider, endpoint) = find_provider(&registry, url).unwrap();

    assert_eq!(provider.provider_name, "YouTube");
    assert_eq!(endpoint.url, "https://www.youtube.com/oembed");
}

#[test]
fn test_youtube_provider_with_query() {
    let registry = registry();
    let url = "https://www.youtube.com/watch?v=rAn0MId";
    let (provider, endpoint) = find_provider(&registry, url).unwrap();

    assert_eq!(provider.provider_name, "YouTube");
    assert_eq!(endpoint.url, "https://www.youtube.com/oembed");
}

#[test]
fn test_invalid() {
    let registry = registry();
    let url = "https://twitter.nl/user/status/1640004220000000000?s=20";
    assert!(find_provider(&registry, url).is_none());

    let url = "https://www.youtube.com/watcx?v=test";
    assert!(find_provider(&registry, url).is_none());
}

#[test]
fn status_scheme_selects_the_plain_endpoint() {
    let registry = Registry::new(vec![provider(
        "Twitter",
        "http://www.twitter.com/",
        vec![
            endpoint(
                &["https://twitter.com/*/status/*"],
                "https://discover.twitter.com/oembed",
                true,
            ),
            endpoint(
                &["https://twitter.com/*/status/*"],
                "https://publish.twitter.com/oembed",
                false,
            ),
        ],
    )])
    .unwrap();
    let (provider, endpoint) =
        find_provider(&registry, "https://twitter.com/user/status/123").unwrap();
    assert_eq!(provider.provider_name, "Twitter");
    assert_eq!(endpoint.url, "https://publish.twitter.com/oembed");
    assert!(!endpoint.discovery);
    assert!(find_provider(&registry, "https://twitter.nl/user/status/123").is_none());
}

#[test]
fn discovery_endpoints_are_passed_over() {
    let registry = Registry::new(vec![provider(
        "Hidden",
        "https://hidden.example/",
        vec![endpoint(&["https://hidden.example/*"], "https://hidden.example/oembed", true)],
    )])
    .unwrap();
    assert!(find_provider(&registry, "https://hidden.example/a").is_none());
    assert!(!registry.providers()[0].endpoints[0].accepts("https://hidden.example/a"));
}

#[test]
fn first_provider_and_first_endpoint_win() {
    let registry = Registry::new(vec![
        provider(
            "One",
            "https://one.example/",
            vec![
                endpoint(&["https://one.example/a/*"], "https://one.example/first", false),
                endpoint(&["https://one.example/*"], "https://one.example/second", false),
            ],
        ),
        provider(
            "Two",
            "https://two.example/",
            vec![endpoint(&["https://one.example/*"], "https://two.example/oembed", false)],
        ),
    ])
    .unwrap();
    let (p, e) = find_provider(&registry, "https://one.example/a/b").unwrap();
    assert_eq!(p.provider_name, "One");
    assert_eq!(e.url, "https://one.example/first");
    let (p, e) = find_provider(&registry, "https://one.example/b").unwrap();
    assert_eq!(p.provider_name, "One");
    assert_eq!(e.url, "https://one.example/second");
    let found = registry.providers()[1].endpoint_for("https://one.example/b").unwrap();
    assert_eq!(found.url, "https://two.example/oembed");
    assert!(registry.providers()[1].endpoint_for("https://two.example/b").is_none());
}

#[test]
fn empty_registry_is_refused() {
    assert!(Registry::new(Vec::new()).is_none());
}

#[test]
fn endpoint_without_schemes_serves_nothing() {
    let e = endpoint(&[], "https://x.example/oembed", false);
    assert!(!e.accepts("https://x.example/a"));
}

#[test]
fn scheme_without_wildcard_matches_nothing() {
    assert!(!matches_scheme("https://example.com/", "https://example.com/"));
    assert!(!matches_scheme("", ""));
    assert!(!matches_scheme("abc", "abc"));
    assert!(!matches_scheme("abc", "abcd"));
}

#[test]
fn trailing_wildcard_takes_the_rest() {
    assert!(matches_scheme("https://example.com/*", "https://example.com/anything"));
    assert!(!matches_scheme("https://example.com/*", "https://other.com/x"));
    assert!(matches_scheme("https://example.com/*", "https://example.com/"));
    assert!(matches_scheme("https://example.com/*", "https://example.com/a/b/c?d=e#f"));
    assert!(!matches_scheme("https://example.com/*", "https://example.com"));
}

#[test]
fn inner_wildcard_spans_one_segment() {
    assert!(matches_scheme("https://a.com/*/watch", "https://a.com/x/watch"));
    assert!(!matches_scheme("https://a.com/*/watch", "https://a.com/x/y/watch"));
    assert!(matches_scheme("https://a.com/*/watch", "https://a.com//watch"));
    assert!(!matches_scheme("https://a.com/*/watch", "https://a.com/x/watch/more"));
    assert!(!matches_scheme("https://a.com/*/watch", "https://a.com/x/watc"));
}

#[test]
fn wildcard_in_host_does_not_reach_into_the_path() {
    assert!(matches_scheme("https://*.example.com/v/*", "https://www.example.com/v/1"));
    assert!(!matches_scheme(
        "https://*.example.com/v/*",
        "https://evil.test/x.example.com/v/1"
    ));
}

#[test]
fn wildcards_at_the_edges_and_side_by_side() {
    assert!(matches_scheme("*", ""));
    assert!(matches_scheme("*", "anything/at/all"));
    assert!(matches_scheme("**", "a/b"));
    assert!(matches_scheme("*.jpg", "photo.jpg"));
    assert!(!matches_scheme("*.jpg", "dir/photo.jpg"));
    assert!(matches_scheme("a**b", "ab"));
    assert!(matches_scheme("a**b", "axxb"));
    assert!(!matches_scheme("a**b", "ax/b"));
    assert!(matches_scheme("a*", "a"));
    assert!(!matches_scheme("a*", ""));
}

#[test]
fn wildcard_ends_at_the_first_occurrence() {
    assert!(matches_scheme("a*b", "ab"));
    assert!(matches_scheme("a*b", "axb"));
    assert!(!matches_scheme("a*b", "abb"));
    assert!(matches_scheme("a*b*", "abb"));
}

#[test]
fn matching_is_case_sensitive_and_by_character() {
    assert!(!matches_scheme("https://Example.com/*", "https://example.com/x"));
    assert!(matches_scheme("https://example.com/*/ü", "https://example.com/é/ü"));
    assert!(!matches_scheme("https://example.com/*/ü", "https://example.com/é/u"));
}
