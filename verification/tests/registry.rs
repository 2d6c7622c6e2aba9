use oembed_rs::{find_provider, Endpoint, Json, Registry, RegistryLoadError};

const PROVIDERS: &str = r#"[
    {
        "provider_name": "Twitter",
        "provider_url": "http://www.twitter.com/",
        "endpoints": [
            {
                "schemes": [
                    "https://twitter.com/*",
                    "https://twitter.com/*/status/*",
                    "https://*.twitter.com/*/status/*"
                ],
                "url": "https://publish.twitter.com/oembed"
            }
        ]
    },
    {
        "provider_name": "Edumedia",
        "provider_url": "https://www.edumedia-sciences.com/",
        "endpoints": [
            {
                "url": "https://www.edumedia-sciences.com/oembed.json",
                "discovery": true
            },
            {
                "url": "https://www.edumedia-sciences.com/oembed.xml",
                "discovery": true,
                "formats": ["xml"]
            }
        ]
    },
    {
        "provider_name": "YouTube",
        "provider_url": "https://www.youtube.com/",
        "endpoints": [
            {
                "schemes": [
                    "https://*.youtube.com/watch*",
                    "https://*.youtube.com/v/*",
                    "https://youtu.be/*",
                    "https://*.youtube.com/playlist?list=*",
                    "https://youtube.com/playlist?list=*",
                    "https://*.youtube.com/shorts*"
                ],
                "url": "https://www.youtube.com/oembed",
                "discovery": false
            }
        ]
    }
]"#;

#[test]
fn registry_is_loaded_from_text() {
    let registry = Registry::load(PROVIDERS.as_bytes()).unwrap();
    let providers = registry.providers();
    assert_eq!(providers.len(), 3);
    assert_eq!(providers[0].provider_name, "Twitter");
    assert_eq!(providers[0].provider_url, "http://www.twitter.com/");
    assert_eq!(providers[0].endpoints.len(), 1);
    assert_eq!(
        providers[0].endpoints[0].schemes,
        vec![
            "https://twitter.com/*",
            "https://twitter.com/*/status/*",
            "https://*.twitter.com/*/status/*"
        ]
    );
    assert!(!providers[0].endpoints[0].discovery);
    assert_eq!(providers[1].endpoints.len(), 2);
    assert!(providers[1].endpoints[0].schemes.is_empty());
    assert_eq!(providers[1].endpoints[0].url, "https://www.edumedia-sciences.com/oembed.json");
    assert!(providers[1].endpoints[1].discovery);
    assert_eq!(providers[2].endpoints[0].schemes.len(), 6);
    assert!(!providers[2].endpoints[0].discovery);
}

#[test]
fn loaded_registry_resolves_urls() {
    let registry = Registry::load(PROVIDERS.as_bytes()).unwrap();
    let (provider, endpoint) =
        find_provider(&registry, "https://twitter.com/user/status/123").unwrap();
    assert_eq!(provider.provider_name, "Twitter");
    assert_eq!(endpoint.url, "https://publish.twitter.com/oembed");
    let (provider, endpoint) =
        find_provider(&registry, "https://www.youtube.com/shorts/abc").unwrap();
    assert_eq!(provider.provider_name, "YouTube");
    assert_eq!(endpoint.url, "https://www.youtube.com/oembed");
    assert!(find_provider(&registry, "https://twitter.nl/user/status/123").is_none());
    assert!(find_provider(&registry, "https://www.edumedia-sciences.com/en/media/1").is_none());
}

fn error_of(text: &str) -> RegistryLoadError {
    match Registry::load(text.as_bytes()) {
        Ok(_) => panic!("loaded: {}", text),
        Err(error) => error,
    }
}

#[test]
fn text_that_is_not_json_is_no_registry() {
    assert_eq!(error_of(""), RegistryLoadError::Syntax);
    assert_eq!(error_of("[{]"), RegistryLoadError::Syntax);
}

#[test]
fn empty_array_is_no_registry() {
    assert_eq!(error_of("[]"), RegistryLoadError::Empty);
    assert_eq!(
        Registry::from_json(&Json::Array(Vec::new())).err(),
        Some(RegistryLoadError::Empty)
    );
}

#[test]
fn document_of_the_wrong_shape_is_no_registry() {
    assert_eq!(error_of("{}"), RegistryLoadError::Malformed);
    assert_eq!(error_of("null"), RegistryLoadError::Malformed);
    assert_eq!(error_of("[1]"), RegistryLoadError::Malformed);
    assert_eq!(error_of(r#"[{"provider_name":"a","provider_url":"b"}]"#), RegistryLoadError::Malformed);
    assert_eq!(
        error_of(r#"[{"provider_name":"a","endpoints":[]}]"#),
        RegistryLoadError::Malformed
    );
    assert_eq!(
        error_of(r#"[{"provider_name":1,"provider_url":"b","endpoints":[]}]"#),
        RegistryLoadError::Malformed
    );
    assert_eq!(
        error_of(r#"[{"provider_name":"a","provider_url":"b","endpoints":{}}]"#),
        RegistryLoadError::Malformed
    );
    assert_eq!(
        error_of(r#"[{"provider_name":"a","provider_url":"b","endpoints":[{}]}]"#),
        RegistryLoadError::Malformed
    );
    assert_eq!(
        error_of(r#"[{"provider_name":"a","provider_url":"b","endpoints":[{"url":"u","schemes":["s",1]}]}]"#),
        RegistryLoadError::Malformed
    );
    assert_eq!(
        error_of(r#"[{"provider_name":"a","provider_url":"b","endpoints":[{"url":"u","schemes":null}]}]"#),
        RegistryLoadError::Malformed
    );
    assert_eq!(
        error_of(r#"[{"provider_name":"a","provider_url":"b","endpoints":[{"url":"u","discovery":"yes"}]}]"#),
        RegistryLoadError::Malformed
    );
    assert_eq!(
        error_of(r#"[{"provider_name":"a","provider_url":"b","endpoints":[]}, 2]"#),
        RegistryLoadError::Malformed
    );
}

#[test]
fn provider_without_endpoints_is_loaded() {
    let registry =
        Registry::load(br#"[{"provider_name":"a","provider_url":"b","endpoints":[]}]"#).unwrap();
    assert_eq!(registry.providers().len(), 1);
    assert!(registry.providers()[0].endpoints.is_empty());
    assert!(find_provider(&registry, "https://a.example/").is_none());
    let _: Option<&Endpoint> = registry.providers()[0].endpoint_for("https://a.example/");
}
