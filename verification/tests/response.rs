use oembed_rs::{DecodeError, Json, Photo, Response, Rich, Type, Video};

fn text(s: &str) -> Json {
    Json::Text(s.to_string())
}

fn object(members: &[(&str, Json)]) -> Json {
    Json::Object(members.iter().map(|(name, value)| (name.to_string(), value.copy())).collect())
}

fn link(version: &str) -> Response {
    Response {
        oembed_type: Type::Link,
        version: version.to_string(),
        title: None,
        author_name: None,
        author_url: None,
        provider_name: None,
        provider_url: None,
        cache_age: None,
        thumbnail_url: None,
        thumbnail_width: None,
        thumbnail_height: None,
        extra: Vec::new(),
    }
}

#[test]
fn test_photo() {
    let input = r#"{
            "type": "photo",
            "version": "1.0",
            "title": "photo",
            "width": 100,
            "height": 50,
            "url": "https://example.com/photo.jpg"
        }"#;
    let response: Response = Response::decode(input.as_bytes()).unwrap();

    assert_eq!(response.title, Some("photo".to_string()));
    assert_eq!(
        response.oembed_type,
        Type::Photo(Photo {
            url: "https://example.com/photo.jpg".to_string(),
            width: 100,
            height: 50
        })
    )
}

#[test]
fn photo_has_no_extras_and_no_leaked_type() {
    let body =
        br#"{"type":"photo","version":"1.0","title":"t","width":100,"height":50,"url":"https://x/p.jpg"}"#;
    let response = Response::decode(body).unwrap();
    assert_eq!(
        response.oembed_type,
        Type::Photo(Photo { url: "https://x/p.jpg".to_string(), width: 100, height: 50 })
    );
    assert_eq!(response.version, "1.0");
    assert_eq!(response.title, Some("t".to_string()));
    assert!(response.extra.is_empty());
    assert!(response.extra.iter().all(|(name, _)| name != "type"));
}

#[test]
fn missing_type_is_an_unknown_variant() {
    assert_eq!(Response::decode(br#"{"version":"1.0"}"#), Err(DecodeError::UnknownVariant));
    assert_eq!(Response::decode(br#"{}"#), Err(DecodeError::UnknownVariant));
}

#[test]
fn unrecognized_type_is_an_unknown_variant() {
    assert_eq!(
        Response::decode(br#"{"type":"audio","version":"1.0"}"#),
        Err(DecodeError::UnknownVariant)
    );
    assert_eq!(
        Response::decode(br#"{"type":"Photo","version":"1.0","url":"u","width":1,"height":1}"#),
        Err(DecodeError::UnknownVariant)
    );
    assert_eq!(
        Response::decode(br#"{"type":7,"version":"1.0"}"#),
        Err(DecodeError::UnknownVariant)
    );
    assert_eq!(
        Response::decode(br#"{"type":null,"version":"1.0"}"#),
        Err(DecodeError::UnknownVariant)
    );
}

#[test]
fn payload_of_the_wrong_shape_is_a_malformed_variant() {
    assert_eq!(
        Response::decode(br#"{"type":"photo","version":"1.0","width":"wide","height":50,"url":"u"}"#),
        Err(DecodeError::MalformedVariant)
    );
    assert_eq!(
        Response::decode(br#"{"type":"photo","version":"1.0","width":100,"height":50}"#),
        Err(DecodeError::MalformedVariant)
    );
    assert_eq!(
        Response::decode(br#"{"type":"video","version":"1.0","html":"<p>","width":100}"#),
        Err(DecodeError::MalformedVariant)
    );
    assert_eq!(
        Response::decode(br#"{"type":"photo","version":"1.0","width":100.5,"height":50,"url":"u"}"#),
        Err(DecodeError::MalformedVariant)
    );
    assert_eq!(
        Response::decode(br#"{"type":"photo","version":"1.0","width":2147483648,"height":50,"url":"u"}"#),
        Err(DecodeError::MalformedVariant)
    );
    assert_eq!(
        Response::decode(br#"{"type":"rich","version":"1.0","html":"<p>","width":1,"height":"h"}"#),
        Err(DecodeError::MalformedVariant)
    );
    assert_eq!(
        Response::decode(br#"{"type":"rich","version":"1.0","html":"<p>"}"#),
        Err(DecodeError::MalformedVariant)
    );
}

#[test]
fn the_kind_is_read_before_the_common_members() {
    assert_eq!(Response::decode(br#"{"type":"photo"}"#), Err(DecodeError::MalformedVariant));
    assert_eq!(Response::decode(br#"{"title":3}"#), Err(DecodeError::UnknownVariant));
}

#[test]
fn common_member_of_the_wrong_shape_is_a_malformed_field() {
    assert_eq!(Response::decode(br#"{"type":"link"}"#), Err(DecodeError::MalformedField));
    assert_eq!(
        Response::decode(br#"{"type":"link","version":1}"#),
        Err(DecodeError::MalformedField)
    );
    assert_eq!(
        Response::decode(br#"{"type":"link","version":null}"#),
        Err(DecodeError::MalformedField)
    );
    assert_eq!(
        Response::decode(br#"{"type":"link","version":"1.0","title":5}"#),
        Err(DecodeError::MalformedField)
    );
    assert_eq!(
        Response::decode(br#"{"type":"link","version":"1.0","thumbnail_width":"10"}"#),
        Err(DecodeError::MalformedField)
    );
    assert_eq!(
        Response::decode(br#"{"type":"link","version":"1.0","cache_age":3600}"#),
        Err(DecodeError::MalformedField)
    );
}

#[test]
fn body_that_is_not_json_is_a_syntax_error() {
    assert_eq!(Response::decode(b"<html>"), Err(DecodeError::Syntax));
    assert_eq!(Response::decode(b""), Err(DecodeError::Syntax));
    assert_eq!(Response::decode(br#"{"type":"link","version":"1.0"} x"#), Err(DecodeError::Syntax));
}

#[test]
fn body_that_is_no_object_is_refused() {
    assert_eq!(Response::decode(b"[]"), Err(DecodeError::NotAnObject));
    assert_eq!(Response::decode(b"\"link\""), Err(DecodeError::NotAnObject));
    assert_eq!(Response::decode(b"null"), Err(DecodeError::NotAnObject));
    assert_eq!(Response::from_json(&Json::Int(1)), Err(DecodeError::NotAnObject));
}

#[test]
fn link_has_no_payload() {
    let response = Response::decode(br#"{"version": "1.0", "type": "link"}"#).unwrap();
    assert_eq!(response, link("1.0"));
}

#[test]
fn video_and_rich_are_read() {
    let video = Response::decode(
        br#"{"type":"video","version":"1.0","html":"<iframe/>","width":640,"height":-1}"#,
    )
    .unwrap();
    assert_eq!(
        video.oembed_type,
        Type::Video(Video { html: "<iframe/>".to_string(), width: 640, height: -1 })
    );
    let rich =
        Response::decode(br#"{"type":"rich","version":"1.0","html":"<b/>","width":2147483647}"#)
            .unwrap();
    assert_eq!(
        rich.oembed_type,
        Type::Rich(Rich { html: "<b/>".to_string(), width: 2147483647, height: None })
    );
    let rich = Response::decode(
        br#"{"type":"rich","version":"1.0","html":"<b/>","width":-2147483648,"height":null}"#,
    )
    .unwrap();
    assert_eq!(
        rich.oembed_type,
        Type::Rich(Rich { html: "<b/>".to_string(), width: -2147483648, height: None })
    );
    let rich = Response::decode(
        br#"{"type":"rich","version":"1.0","html":"<b/>","width":1,"height":2}"#,
    )
    .unwrap();
    assert_eq!(
        rich.oembed_type,
        Type::Rich(Rich { html: "<b/>".to_string(), width: 1, height: Some(2) })
    );
}

#[test]
fn common_members_are_read() {
    let response = Response::decode(
        br#"{"type":"link","version":"1.0","title":"t","author_name":"an","author_url":"au",
            "provider_name":"pn","provider_url":"pu","cache_age":"60","thumbnail_url":"tu",
            "thumbnail_width":10,"thumbnail_height":20}"#,
    )
    .unwrap();
    let mut expected = link("1.0");
    expected.title = Some("t".to_string());
    expected.author_name = Some("an".to_string());
    expected.author_url = Some("au".to_string());
    expected.provider_name = Some("pn".to_string());
    expected.provider_url = Some("pu".to_string());
    expected.cache_age = Some("60".to_string());
    expected.thumbnail_url = Some("tu".to_string());
    expected.thumbnail_width = Some(10);
    expected.thumbnail_height = Some(20);
    assert_eq!(response, expected);
}

#[test]
fn null_stands_for_a_member_that_is_not_set() {
    let response =
        Response::decode(br#"{"type":"link","version":"1.0","title":null,"thumbnail_width":null}"#)
            .unwrap();
    assert_eq!(response, link("1.0"));
}

#[test]
fn extras_keep_their_shape() {
    let response = Response::decode(
        br#"{"type":"link","version":"1.0","a":[1,"x",null],"b":{"c":true},"d":1.5,
            "e":18446744073709551615,"f":-3,"g":"s"}"#,
    )
    .unwrap();
    assert_eq!(
        response.extra,
        vec![
            (
                "a".to_string(),
                Json::Array(vec![Json::Int(1), text("x"), Json::Null])
            ),
            ("b".to_string(), object(&[("c", Json::Bool(true))])),
            ("d".to_string(), Json::Decimal("1.5".to_string())),
            ("e".to_string(), Json::UInt(18446744073709551615)),
            ("f".to_string(), Json::Int(-3)),
            ("g".to_string(), text("s")),
        ]
    );
}

#[test]
fn payload_names_of_another_kind_are_extras() {
    let response =
        Response::decode(br#"{"type":"link","version":"1.0","url":"u","width":3}"#).unwrap();
    assert_eq!(
        response.extra,
        vec![("url".to_string(), text("u")), ("width".to_string(), Json::Int(3))]
    );
    let response = Response::decode(
        br#"{"type":"photo","version":"1.0","url":"u","width":3,"height":4,"html":"h"}"#,
    )
    .unwrap();
    assert_eq!(response.extra, vec![("html".to_string(), text("h"))]);
}

#[test]
fn first_member_of_a_name_decides() {
    let tree = object(&[
        ("type", text("link")),
        ("type", text("photo")),
        ("version", text("1.0")),
        ("version", text("2.0")),
        ("x", Json::Int(1)),
        ("x", Json::Int(2)),
    ]);
    let response = Response::from_json(&tree).unwrap();
    assert_eq!(response.oembed_type, Type::Link);
    assert_eq!(response.version, "1.0");
    assert_eq!(response.extra, vec![("x".to_string(), Json::Int(1))]);
}

#[test]
fn written_document_has_the_kind_first_and_null_for_what_is_not_set() {
    let mut response = link("1.0");
    response.oembed_type =
        Type::Photo(Photo { url: "u".to_string(), width: 1, height: 2 });
    response.title = Some("t".to_string());
    response.extra = vec![("x".to_string(), Json::Bool(false))];
    let expected = object(&[
        ("type", text("photo")),
        ("url", text("u")),
        ("width", Json::Int(1)),
        ("height", Json::Int(2)),
        ("version", text("1.0")),
        ("title", text("t")),
        ("author_name", Json::Null),
        ("author_url", Json::Null),
        ("provider_name", Json::Null),
        ("provider_url", Json::Null),
        ("cache_age", Json::Null),
        ("thumbnail_url", Json::Null),
        ("thumbnail_width", Json::Null),
        ("thumbnail_height", Json::Null),
        ("x", Json::Bool(false)),
    ]);
    assert_eq!(response.to_json(), expected);
}

fn samples() -> Vec<Response> {
    let mut photo = link("1.0");
    photo.oembed_type =
        Type::Photo(Photo { url: "https://x/p.jpg".to_string(), width: 100, height: 50 });
    photo.title = Some("t".to_string());
    photo.thumbnail_width = Some(-7);
    let mut video = link("2.0");
    video.oembed_type = Type::Video(Video { html: "<v>".to_string(), width: 0, height: 1 });
    video.extra = vec![
        ("zeta".to_string(), Json::Array(vec![Json::Int(1), Json::Null])),
        ("alpha".to_string(), object(&[("k", text("v"))])),
    ];
    let mut rich = link("");
    rich.oembed_type = Type::Rich(Rich { html: "\"<r>\"".to_string(), width: 3, height: None });
    rich.author_name = Some("é \u{1F600}".to_string());
    rich.cache_age = Some("3600".to_string());
    let mut rich_high = link("1.0");
    rich_high.oembed_type =
        Type::Rich(Rich { html: String::new(), width: 3, height: Some(9) });
    rich_high.thumbnail_url = Some("https://x/t.png".to_string());
    rich_high.thumbnail_height = Some(2147483647);
    vec![link("1.0"), photo, video, rich, rich_high]
}

#[test]
fn document_round_trip_gives_the_response_back() {
    for response in samples() {
        assert_eq!(Response::from_json(&response.to_json()), Ok(response));
    }
}

#[test]
fn text_round_trip_gives_the_fields_and_the_extras_back() {
    for response in samples() {
        let mut again = Response::decode(&response.encode()).unwrap();
        again.extra.sort_by(|a, b| a.0.cmp(&b.0));
        let mut expected = response;
        expected.extra.sort_by(|a, b| a.0.cmp(&b.0));
        assert_eq!(again, expected);
    }
}

#[test]
fn encoded_text_is_compact_json() {
    assert_eq!(
        String::from_utf8(link("1.0").encode()).unwrap(),
        "{\"author_name\":null,\"author_url\":null,\"cache_age\":null,\"provider_name\":null,\"provider_url\":null,\"thumbnail_height\":null,\"thumbnail_url\":null,\"thumbnail_width\":null,\"title\":null,\"type\":\"link\",\"version\":\"1.0\"}"
    );
}

#[test]
fn well_formed_responses_are_told_apart() {
    for response in samples() {
        assert!(response.is_well_formed());
    }
    let mut leaked = link("1.0");
    leaked.extra = vec![("type".to_string(), text("photo"))];
    assert!(!leaked.is_well_formed());
    let mut shadowed = link("1.0");
    shadowed.extra = vec![("title".to_string(), Json::Null)];
    assert!(!shadowed.is_well_formed());
    let mut twice = link("1.0");
    twice.extra = vec![
        ("a".to_string(), Json::Int(1)),
        ("b".to_string(), Json::Int(2)),
        ("a".to_string(), Json::Int(3)),
    ];
    assert!(!twice.is_well_formed());
    let mut free = link("1.0");
    free.extra = vec![("width".to_string(), Json::Int(1))];
    assert!(free.is_well_formed());
    free.oembed_type = Type::Photo(Photo { url: String::new(), width: 1, height: 1 });
    assert!(!free.is_well_formed());
}
