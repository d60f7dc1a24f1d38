use pact_stub_server::model::{Body, Response};
use pact_stub_server::pact_support::{extract_headers, extract_query_string, header_text, WireResponse};
use pact_stub_server::{hyper_request_to_pact_request, pact_response_to_hyper_response};

fn header<'a>(wire: &'a WireResponse, name: &str) -> Option<&'a str> {
    wire.headers
        .iter()
        .find(|(line_name, _)| line_name.eq_ignore_ascii_case(name))
        .map(|(_, value)| value.as_str())
}

fn json_body(text: &str) -> Body {
    Body::Present(text.as_bytes().to_vec(), None, None)
}

fn line(name: &str, value: &[u8]) -> (String, Vec<u8>) {
    (name.to_string(), value.to_vec())
}

#[test]
fn test_response() {
    let response = Response { status: 201, headers: Some(vec![]), ..Response::default() };
    let hyper_response = pact_response_to_hyper_response(&response);

    assert_eq!(hyper_response.status, 201);
    assert_eq!(hyper_response.headers.len(), 1);
    assert_eq!(header(&hyper_response, "Access-Control-Allow-Origin"), Some("*"));
}

#[test]
fn test_response_with_content_type() {
    let response = Response {
        status: 201,
        headers: Some(vec![("Content-Type".to_string(), vec!["text/dizzy".to_string()])]),
        body: json_body("{\"a\": 1, \"b\": 4, \"c\": 6}"),
    };
    let hyper_response = pact_response_to_hyper_response(&response);

    assert_eq!(hyper_response.status, 201);
    assert!(!hyper_response.headers.is_empty());
    assert_eq!(header(&hyper_response, "content-type"), Some("text/dizzy"));
}

#[test]
fn adds_a_content_type_if_there_is_not_one_and_there_is_a_body() {
    let response =
        Response { body: json_body("{\"a\": 1, \"b\": 4, \"c\": 6}"), ..Response::default() };
    let hyper_response = pact_response_to_hyper_response(&response);

    assert!(!hyper_response.headers.is_empty());
    assert_eq!(header(&hyper_response, "content-type"), Some("application/json"));
}

#[test]
fn only_add_a_cors_origin_header_if_one_has_not_already_been_provided() {
    let response = Response {
        headers: Some(vec![(
            "Access-Control-Allow-Origin".to_string(),
            vec!["dodgy.com".to_string()],
        )]),
        ..Response::default()
    };
    let hyper_response = pact_response_to_hyper_response(&response);

    assert_eq!(hyper_response.headers.len(), 1);
    assert_eq!(header(&hyper_response, "Access-Control-Allow-Origin"), Some("dodgy.com"));
}

#[test]
fn every_recorded_value_gets_its_own_line() {
    let response = Response {
        status: 200,
        headers: Some(vec![
            ("Set-Cookie".to_string(), vec!["a=1".to_string(), "b=2".to_string()]),
            ("X-Empty".to_string(), vec![]),
            ("X-One".to_string(), vec!["1".to_string()]),
        ]),
        body: Body::Missing,
    };
    let wire = pact_response_to_hyper_response(&response);
    let expected: Vec<(String, String)> = vec![
        ("Set-Cookie", "a=1"),
        ("Set-Cookie", "b=2"),
        ("X-One", "1"),
        ("access-control-allow-origin", "*"),
    ]
    .into_iter()
    .map(|(name, value)| (name.to_string(), value.to_string()))
    .collect();
    assert_eq!(wire.headers, expected);
    assert!(wire.body.is_empty());
}

#[test]
fn declared_content_type_of_the_body_wins_over_detection() {
    let response = Response {
        body: Body::Present(b"{\"a\": 1}".to_vec(), Some("application/hal+json".to_string()), None),
        ..Response::default()
    };
    let wire = pact_response_to_hyper_response(&response);
    assert_eq!(header(&wire, "content-type"), Some("application/hal+json"));
    assert_eq!(wire.body, b"{\"a\": 1}".to_vec());
}

#[test]
fn body_that_is_no_text_goes_out_as_plain_text() {
    let response =
        Response { body: Body::Present(vec![0xff, 0xfe, 0x00], None, None), ..Response::default() };
    let wire = pact_response_to_hyper_response(&response);
    assert_eq!(header(&wire, "content-type"), Some("text/plain"));
    assert_eq!(wire.body, vec![0xff, 0xfe, 0x00]);
}

#[test]
fn body_of_xml_is_announced_as_xml() {
    let response = Response {
        body: Body::Present(b"<?xml version=\"1.0\"?><a/>".to_vec(), None, None),
        ..Response::default()
    };
    let wire = pact_response_to_hyper_response(&response);
    assert_eq!(header(&wire, "content-type"), Some("application/xml"));
}

#[test]
fn response_without_body_announces_no_content_type() {
    for body in [Body::Missing, Body::Empty, Body::Null] {
        let response = Response { body, ..Response::default() };
        let wire = pact_response_to_hyper_response(&response);
        assert_eq!(header(&wire, "content-type"), None);
        assert!(wire.body.is_empty());
        assert_eq!(wire.status, 200);
    }
}

#[test]
fn header_names_are_found_whatever_their_case() {
    let response = Response {
        headers: Some(vec![
            ("CONTENT-TYPE".to_string(), vec!["text/a".to_string()]),
            ("access-control-allow-ORIGIN".to_string(), vec!["x.org".to_string()]),
        ]),
        body: json_body("{}"),
        ..Response::default()
    };
    let wire = pact_response_to_hyper_response(&response);
    assert_eq!(wire.headers.len(), 2);
}

#[test]
fn header_values_are_read_as_visible_ascii() {
    assert_eq!(header_text(&b"text/plain; q=1".to_vec()), Some("text/plain; q=1".to_string()));
    assert_eq!(header_text(&b"a\tb".to_vec()), Some("a\tb".to_string()));
    assert_eq!(header_text(&vec![]), Some(String::new()));
    assert_eq!(header_text(&vec![b'a', 127]), None);
    assert_eq!(header_text(&vec![b'a', 31]), None);
    assert_eq!(header_text(&vec![0xc3, 0xa9]), None);
    assert_eq!(header_text(&vec![32, 126]), Some(" ~".to_string()));
}

#[test]
fn header_lines_are_grouped_by_name_in_wire_order() {
    let lines = vec![
        line("accept", b"text/html"),
        line("x-id", b"1"),
        line("accept", b"application/json"),
        line("x-bad", &[0xff]),
        line("x-id", &[0x80]),
        line("x-id", b"3"),
    ];
    let headers = extract_headers(&lines).unwrap();
    assert_eq!(
        headers,
        vec![
            ("accept".to_string(), vec!["text/html".to_string(), "application/json".to_string()]),
            ("x-id".to_string(), vec!["1".to_string(), "3".to_string()]),
            ("x-bad".to_string(), vec![]),
        ]
    );
}

#[test]
fn request_without_header_lines_has_no_headers() {
    assert_eq!(extract_headers(&vec![]), None);
}

#[test]
fn query_string_is_parsed_into_names_and_values() {
    let mut query = extract_query_string(Some("a=1&b&a=2&c=x%20y")).unwrap();
    query.sort();
    assert_eq!(
        query,
        vec![
            ("a".to_string(), vec![Some("1".to_string()), Some("2".to_string())]),
            ("b".to_string(), vec![None]),
            ("c".to_string(), vec![Some("x y".to_string())]),
        ]
    );
}

#[test]
fn request_without_query_string_has_no_query() {
    assert_eq!(extract_query_string(None), None);
    assert_eq!(extract_query_string(Some("")), None);
}

#[test]
fn request_is_built_from_its_parts_on_the_wire() {
    let lines = vec![line("host", b"localhost"), line("accept", b"*/*")];
    let request = hyper_request_to_pact_request(
        "PUT",
        "/orders/1",
        Some("dry=true"),
        &lines,
        json_body("{}"),
    );
    assert_eq!(request.method, "PUT");
    assert_eq!(request.path, "/orders/1");
    assert_eq!(request.query, Some(vec![("dry".to_string(), vec![Some("true".to_string())])]));
    assert_eq!(
        request.headers,
        Some(vec![
            ("host".to_string(), vec!["localhost".to_string()]),
            ("accept".to_string(), vec!["*/*".to_string()]),
        ])
    );
    assert_eq!(request.body, json_body("{}"));
}
