use oembed_rs::text::decimal_text;
use oembed_rs::{
    chars_of, read_response, request_url, ConsumerRequest, DecodeError, Error, Response,
    TransportError, Type,
};

fn owned(pairs: &[(&str, &str)]) -> Vec<(String, String)> {
    pairs.iter().map(|(k, v)| (k.to_string(), v.to_string())).collect()
}

fn link() -> Response {
    Response {
        oembed_type: Type::Link,
        version: "1.0".to_string(),
        title: None,
        author_name: None,
        author_url: None,
        provider_name: None,
        provider_url: None,
        cache_age: None,
        thumbnail_url: None,
        thumbnail_width: None,
        thumbnail_height: None,
        extra: Vec::new(),
    }
}

#[test]
fn test_fetch_success() {
    let target = request_url(
        "http://127.0.0.1:1234",
        &ConsumerRequest { url: "https://example.com", ..ConsumerRequest::default() },
    )
    .unwrap();
    assert_eq!(target, "http://127.0.0.1:1234/?url=https%3A%2F%2Fexample.com");

    let result = read_response(200, br#"{"version": "1.0", "type": "link"}"#);
    assert_eq!(result.ok(), Some(link()));
}

#[test]
fn test_fetch_error() {
    let result = read_response(404, b"");
    if let Err(Error::Transport(TransportError::Status(status))) = result {
        assert_eq!(status, 404)
    } else {
        panic!("unexpected result: {:?}", result);
    }
}

#[test]
fn failure_status_is_never_a_decode_error() {
    let good = br#"{"version": "1.0", "type": "link"}"#;
    for status in [0u16, 100, 199, 300, 304, 400, 404, 500, 503, 65535] {
        assert_eq!(
            read_response(status, good),
            Err(Error::Transport(TransportError::Status(status)))
        );
        assert_eq!(
            read_response(status, b"not json"),
            Err(Error::Transport(TransportError::Status(status)))
        );
    }
}

#[test]
fn success_status_hands_the_body_to_the_decoder() {
    let good = br#"{"version": "1.0", "type": "link"}"#;
    for status in [200u16, 201, 204, 299] {
        assert_eq!(read_response(status, good), Ok(link()));
        assert_eq!(read_response(status, b"not json"), Err(Error::Decode(DecodeError::Syntax)));
        assert_eq!(
            read_response(status, br#"{"version": "1.0"}"#),
            Err(Error::Decode(DecodeError::UnknownVariant))
        );
    }
}

#[test]
fn default_request_is_empty() {
    let request = ConsumerRequest::default();
    assert_eq!(request.url, "");
    assert_eq!(request.max_width, None);
    assert_eq!(request.max_height, None);
    assert!(request.params.is_none());
    assert_eq!(request.query_pairs(), owned(&[("url", "")]));
}

#[test]
fn query_has_the_url_first_then_sizes_then_further_parameters() {
    let request = ConsumerRequest {
        url: "https://example.com/a b",
        max_width: Some(1000),
        max_height: Some(-5),
        params: Some(vec![("format", "json"), ("url", "again"), ("maxwidth", "7")]),
    };
    assert_eq!(
        request.query_pairs(),
        owned(&[
            ("url", "https://example.com/a b"),
            ("maxwidth", "1000"),
            ("maxheight", "-5"),
            ("format", "json"),
            ("url", "again"),
            ("maxwidth", "7"),
        ])
    );
    let request = ConsumerRequest {
        url: "u",
        max_width: None,
        max_height: Some(500),
        params: Some(Vec::new()),
    };
    assert_eq!(request.query_pairs(), owned(&[("url", "u"), ("maxheight", "500")]));
}

#[test]
fn target_carries_the_parameters_in_the_query() {
    let request = ConsumerRequest {
        url: "https://twitter.com/user/status/1000000000000000000",
        max_width: Some(1000),
        max_height: Some(500),
        params: Some(vec![("lang", "fr & en"), ("saisons", "\u{c9}t\u{e9}+hiver")]),
    };
    assert_eq!(
        request_url("https://publish.twitter.com/oembed", &request),
        Ok("https://publish.twitter.com/oembed?url=https%3A%2F%2Ftwitter.com%2Fuser%2Fstatus%2F1000000000000000000&maxwidth=1000&maxheight=500&lang=fr+%26+en&saisons=%C3%89t%C3%A9%2Bhiver".to_string())
    );
}

#[test]
fn target_keeps_the_query_and_the_fragment_of_the_endpoint() {
    let request = ConsumerRequest { url: "x", ..ConsumerRequest::default() };
    assert_eq!(
        request_url("https://example.net/api?format=json#nav", &request),
        Ok("https://example.net/api?format=json&url=x#nav".to_string())
    );
}

#[test]
fn endpoint_that_is_no_url_is_refused() {
    let request = ConsumerRequest { url: "x", ..ConsumerRequest::default() };
    assert_eq!(
        request_url("not a url", &request),
        Err(Error::Transport(TransportError::Endpoint))
    );
    assert_eq!(request_url("", &request), Err(Error::Transport(TransportError::Endpoint)));
    assert_eq!(
        request_url("/relative/path", &request),
        Err(Error::Transport(TransportError::Endpoint))
    );
}

#[test]
fn decimal_text_of_numbers() {
    assert_eq!(decimal_text(0), "0");
    assert_eq!(decimal_text(7), "7");
    assert_eq!(decimal_text(10), "10");
    assert_eq!(decimal_text(1000), "1000");
    assert_eq!(decimal_text(-1), "-1");
    assert_eq!(decimal_text(1234567890), "1234567890");
    assert_eq!(decimal_text(i32::MAX), "2147483647");
    assert_eq!(decimal_text(i32::MIN), "-2147483648");
    for n in [-100001, -99, 5, 42, 909, 65536] {
        assert_eq!(decimal_text(n), n.to_string());
    }
}

#[test]
fn characters_are_taken_one_by_one() {
    assert_eq!(chars_of(""), Vec::<char>::new());
    assert_eq!(chars_of("a/é*😀"), vec!['a', '/', 'é', '*', '😀']);
}

#[test]
fn same_text_tells_strings_apart() {
    assert!(oembed_rs::text::same_text("", ""));
    assert!(oembed_rs::text::same_text("type", "type"));
    assert!(!oembed_rs::text::same_text("type", "typo"));
    assert!(!oembed_rs::text::same_text("type", "types"));
    assert!(oembed_rs::text::same_text("é", "\u{e9}"));
}
