//! Between the wire and the contract model: what a request on the wire means, and what goes
//! out on the wire for a response.

use crate::engine::{
    detect_content_type, detected_content_type, lists_map, parse_query, parsed_query,
};
use crate::model::{
    find_header, header_values, Body, BodyView, Headers, HeadersView, Query, Request, Response,
    ResponseView,
};
use crate::seqs::lemma_push_deep_view;
use crate::text::{lowercase_of, to_lowercase};
use vstd::prelude::*;

verus! {

/// The query of a request, parsed; none where the request has no query string or an empty
/// one.
pub fn extract_query_string(query: Option<&str>) -> (parsed: Option<Query>)
    ensures
        parsed is Some <==> query is Some && query->0@.len() > 0,
        parsed is Some ==> parsed_query(query->0@) is Some && lists_map(
            parsed.deep_view()->0,
            parsed_query(query->0@)->0,
        ),
{
    match query {
        Some(query) => parse_query(query),
        None => None,
    }
}

/// Whether a byte may stand in a header value that is read as text: the visible ASCII
/// characters, the space and the tab.
pub open spec fn is_visible_ascii(byte: u8) -> bool {
    (32 <= byte < 127) || byte == 9
}

/// Whether a header value can be read as text.
pub open spec fn all_visible(raw: Seq<u8>) -> bool {
    forall|i: int| 0 <= i < raw.len() ==> is_visible_ascii(#[trigger] raw[i])
}

/// The text of a header value: each byte as the character with that code.
pub open spec fn text_of(raw: Seq<u8>) -> Seq<char> {
    raw.map_values(|byte: u8| byte as char)
}

/// The text of a header value, if it can be read as text.
pub open spec fn readable(raw: Seq<u8>) -> Option<Seq<char>> {
    if all_visible(raw) {
        Some(text_of(raw))
    } else {
        None
    }
}

/// Reads a header value as text. A value with a byte that is not visible ASCII has none.
pub fn header_text(raw: &Vec<u8>) -> (text: Option<String>)
    ensures
        text.deep_view() == readable(raw@),
{
    let mut text = String::new();
    for i in 0..raw.len()
        invariant
            text@ == text_of(raw@.take(i as int)),
            all_visible(raw@.take(i as int)),
    {
        let byte = raw[i];
        if !((32 <= byte && byte < 127) || byte == 9) {
            return None;
        }
        text.push(byte as char);
        assert(raw@.take(i + 1) =~= raw@.take(i as int).push(byte));
        assert(text_of(raw@.take(i + 1)) =~= text_of(raw@.take(i as int)).push(byte as char));
    }
    assert(raw@.take(raw@.len() as int) =~= raw@);
    Some(text)
}

/// The header lines of a request as they came in: name and raw value, in wire order.
pub type RawLines = Seq<(Seq<char>, Seq<u8>)>;

/// The names among the lines, each once, in the order of their first line.
pub open spec fn names_of(lines: RawLines) -> Seq<Seq<char>>
    decreases lines.len(),
{
    if lines.len() == 0 {
        Seq::empty()
    } else {
        let earlier = names_of(lines.drop_last());
        if earlier.contains(lines.last().0) {
            earlier
        } else {
            earlier.push(lines.last().0)
        }
    }
}

/// The values of the lines with a name, in wire order, as far as they can be read as text.
pub open spec fn values_of(lines: RawLines, name: Seq<char>) -> Seq<Seq<char>> {
    lines.filter(|line: (Seq<char>, Seq<u8>)| line.0 == name && all_visible(line.1)).map_values(
        |line: (Seq<char>, Seq<u8>)| text_of(line.1),
    )
}

/// The header lines grouped by name.
pub open spec fn grouped(lines: RawLines) -> HeadersView {
    names_of(lines).map_values(|name: Seq<char>| (name, values_of(lines, name)))
}

/// Whether a name is in a list of names.
fn holds_name(names: &Vec<String>, name: &str) -> (found: bool)
    ensures
        found == names.deep_view().contains(name@),
{
    for i in 0..names.len()
        invariant
            forall|j: int| 0 <= j < i ==> names@[j]@ != name@,
    {
        if names[i].as_str().eq(name) {
            assert(names.deep_view()[i as int] == name@);
            return true;
        }
    }
    assert forall|j: int| 0 <= j < names.deep_view().len() implies names.deep_view()[j]
        != name@ by {
        assert(names.deep_view()[j] == names@[j]@);
    }
    false
}

/// The values of the lines with a name, as far as they can be read as text.
fn readable_values(lines: &Vec<(String, Vec<u8>)>, name: &str) -> (values: Vec<String>)
    ensures
        values.deep_view() == values_of(lines.deep_view(), name@),
{
    let ghost all = lines.deep_view();
    let mut values: Vec<String> = Vec::new();
    assert(values.deep_view() =~= values_of(all.take(0), name@));
    for i in 0..lines.len()
        invariant
            all == lines.deep_view(),
            values.deep_view() == values_of(all.take(i as int), name@),
    {
        let ghost keep = |line: (Seq<char>, Seq<u8>)| line.0 == name@ && all_visible(line.1);
        let ghost read = |line: (Seq<char>, Seq<u8>)| text_of(line.1);
        let ghost before = values;
        proof {
            assert(all[i as int] == lines@[i as int].deep_view());
            assert(all[i as int].1 =~= lines@[i as int].1@);
            assert(all.take(i + 1) =~= all.take(i as int).push(all[i as int]));
            all.take(i as int).lemma_filter_push(all[i as int], keep);
            all.take(i as int).filter(keep).lemma_push_map_commute(read, all[i as int]);
        }
        if lines[i].0.as_str().eq(name) {
            if let Some(text) = header_text(&lines[i].1) {
                values.push(text);
                proof {
                    lemma_push_deep_view(before, values, text);
                    assert(values.deep_view() =~= values_of(all.take(i + 1), name@));
                }
            }
        }
    }
    assert(all.take(all.len() as int) =~= all);
    values
}

/// Groups the header lines of a request by name. The names keep the order of their first
/// line, the values of a name their order on the wire; a value that cannot be read as text
/// is left out. A request without header lines has no headers.
pub fn extract_headers(lines: &Vec<(String, Vec<u8>)>) -> (headers: Option<Headers>)
    ensures
        headers.deep_view() == if lines@.len() == 0 {
            None
        } else {
            Some(grouped(lines.deep_view()))
        },
{
    if lines.len() == 0 {
        return None;
    }
    let ghost all = lines.deep_view();
    let mut names: Vec<String> = Vec::new();
    assert(names.deep_view() =~= names_of(all.take(0)));
    for i in 0..lines.len()
        invariant
            all == lines.deep_view(),
            names.deep_view() == names_of(all.take(i as int)),
    {
        let ghost before = names;
        proof {
            assert(all[i as int] == lines@[i as int].deep_view());
            assert(all.take(i + 1).drop_last() =~= all.take(i as int));
        }
        if !holds_name(&names, lines[i].0.as_str()) {
            names.push(lines[i].0.clone());
            proof {
                lemma_push_deep_view(before, names, lines@[i as int].0);
            }
        }
    }
    assert(all.take(all.len() as int) =~= all);
    let mut headers: Headers = Vec::new();
    for k in 0..names.len()
        invariant
            all == lines.deep_view(),
            names.deep_view() == names_of(all),
            headers@.len() == k,
            forall|j: int| 0 <= j < k ==> headers@[j].deep_view() == grouped(all)[j],
    {
        assert(names.deep_view()[k as int] == names@[k as int]@);
        let values = readable_values(lines, names[k].as_str());
        headers.push((names[k].clone(), values));
    }
    assert(headers.deep_view() =~= grouped(all));
    Some(headers)
}

/// The request that the library works on, made from what came in on the wire: the method,
/// the path and the query string of the request line, the header lines, and the body.
pub fn hyper_request_to_pact_request(
    method: &str,
    path: &str,
    query: Option<&str>,
    lines: &Vec<(String, Vec<u8>)>,
    body: Body,
) -> (request: Request)
    ensures
        request.method@ == method@,
        request.path@ == path@,
        request.query is Some <==> query is Some && query->0@.len() > 0,
        request.query is Some ==> parsed_query(query->0@) is Some && lists_map(
            request.query.deep_view()->0,
            parsed_query(query->0@)->0,
        ),
        request@.headers == if lines@.len() == 0 {
            None
        } else {
            Some(grouped(lines.deep_view()))
        },
        request.body == body,
{
    Request {
        method: method.to_owned(),
        path: path.to_owned(),
        query: extract_query_string(query),
        headers: extract_headers(lines),
        body,
    }
}

/// What goes out on the wire for a response: the status, the header lines in order, and
/// the bytes of the body.
#[derive(Clone, Debug, PartialEq, Eq)]
pub struct WireResponse {
    pub status: u16,
    pub headers: Vec<(String, String)>,
    pub body: Vec<u8>,
}

/// Header lines on the way out: name and value.
pub type WireLines = Seq<(Seq<char>, Seq<char>)>;

/// The mathematical content of what goes out on the wire.
pub struct WireView {
    pub status: u16,
    pub headers: WireLines,
    pub body: Seq<u8>,
}

impl View for WireResponse {
    type V = WireView;

    open spec fn view(&self) -> WireView {
        WireView { status: self.status, headers: self.headers.deep_view(), body: self.body@ }
    }
}

/// The lines of one header: one line for each of its values, in their order.
pub open spec fn lines_of(entry: (Seq<char>, Seq<Seq<char>>)) -> WireLines {
    entry.1.map_values(|value: Seq<char>| (entry.0, value))
}

/// The lines of a header list: header after header, each with all its lines.
pub open spec fn flat(headers: HeadersView) -> WireLines {
    headers.map_values(|entry: (Seq<char>, Seq<Seq<char>>)| lines_of(entry)).flatten()
}

/// The lines that a response records.
pub open spec fn recorded_lines(headers: Option<HeadersView>) -> WireLines {
    match headers {
        Some(headers) => flat(headers),
        None => Seq::empty(),
    }
}

/// Whether a response records a header of this name, compared without regard to case.
pub open spec fn has_header(headers: Option<HeadersView>, name: Seq<char>) -> bool {
    match headers {
        Some(headers) => header_values(headers, lowercase_of(name)) is Some,
        None => false,
    }
}

/// Whether a response records a header of this name.
pub fn records_header(headers: &Option<Headers>, name: &str) -> (found: bool)
    ensures
        found == has_header(headers.deep_view(), name@),
{
    match headers {
        Some(headers) => {
            let lower = to_lowercase(name);
            find_header(headers, lower.as_str()).is_some()
        },
        None => false,
    }
}

/// The content type to announce for a body: the one declared for it, else the one read off
/// its first bytes, else plain text.
pub open spec fn announced_content_type(bytes: Seq<u8>, declared: Option<Seq<char>>) -> Seq<char> {
    match declared {
        Some(declared) => declared,
        None => match detected_content_type(bytes) {
            Some(detected) => detected,
            None => "text/plain"@,
        },
    }
}

/// The line that allows every origin, for a response that records no such header.
pub open spec fn origin_line(headers: Option<HeadersView>) -> WireLines {
    if has_header(headers, "access-control-allow-origin"@) {
        Seq::empty()
    } else {
        seq![("access-control-allow-origin"@, "*"@)]
    }
}

/// The line that announces the content type, for a response with a body that records no
/// such header.
pub open spec fn content_type_line(response: ResponseView) -> WireLines {
    match response.body {
        BodyView::Present(bytes, declared, _) => if has_header(
            response.headers,
            "content-type"@,
        ) {
            Seq::empty()
        } else {
            seq![("content-type"@, announced_content_type(bytes, declared))]
        },
        _ => Seq::empty(),
    }
}

/// The header lines that go out for a response: those it records, each value on a line of
/// its own, then the two lines that are added where the response records no such header.
pub open spec fn wire_headers(response: ResponseView) -> WireLines {
    recorded_lines(response.headers) + origin_line(response.headers) + content_type_line(
        response,
    )
}

/// The bytes that go out as the body of a response: those of a body that is present.
pub open spec fn wire_body(body: BodyView) -> Seq<u8> {
    match body {
        BodyView::Present(bytes, _, _) => bytes,
        _ => Seq::empty(),
    }
}

/// What goes out on the wire for a response.
pub open spec fn wire_of(response: ResponseView) -> WireView {
    WireView {
        status: response.status,
        headers: wire_headers(response),
        body: wire_body(response.body),
    }
}

/// The lines of a header list.
fn flatten_headers(headers: &Headers) -> (lines: Vec<(String, String)>)
    ensures
        lines.deep_view() == flat(headers.deep_view()),
{
    let ghost all = headers.deep_view();
    let mut lines: Vec<(String, String)> = Vec::new();
    assert(lines.deep_view() =~= flat(all.take(0)));
    for i in 0..headers.len()
        invariant
            all == headers.deep_view(),
            lines.deep_view() == flat(all.take(i as int)),
    {
        let ghost part = |entry: (Seq<char>, Seq<Seq<char>>)| lines_of(entry);
        let ghost done = lines.deep_view();
        let name = &headers[i].0;
        let values = &headers[i].1;
        proof {
            assert(all[i as int] == headers@[i as int].deep_view());
            assert(lines_of(all[i as int]).take(0) =~= Seq::empty());
        }
        for j in 0..values.len()
            invariant
                lines.deep_view() == done + lines_of(all[i as int]).take(j as int),
                all[i as int] == (name@, values.deep_view()),
        {
            let ghost before = lines;
            let line = (name.clone(), values[j].clone());
            lines.push(line);
            proof {
                lemma_push_deep_view(before, lines, line);
                assert(values.deep_view()[j as int] == values@[j as int]@);
                assert(lines.deep_view() =~= done + lines_of(all[i as int]).take(j + 1));
            }
        }
        proof {
            assert(lines_of(all[i as int]).take(values@.len() as int) =~= lines_of(
                all[i as int],
            ));
            assert(all.take(i + 1).map_values(part) =~= all.take(i as int).map_values(part).push(
                lines_of(all[i as int]),
            ));
            all.take(i as int).map_values(part).lemma_flatten_push(lines_of(all[i as int]));
        }
    }
    assert(all.take(all.len() as int) =~= all);
    lines
}

/// What goes out on the wire for a response. Every recorded header value gets a line of its
/// own. A response that records no `Access-Control-Allow-Origin` allows every origin. A
/// response with a body that records no `Content-Type` announces the content type declared
/// for the body, else the one read off the body, else plain text.
pub fn pact_response_to_hyper_response(response: &Response) -> (wire: WireResponse)
    ensures
        wire@ == wire_of(response@),
{
    let mut headers = match &response.headers {
        Some(headers) => flatten_headers(headers),
        None => Vec::new(),
    };
    assert(headers.deep_view() =~= recorded_lines(response@.headers));
    if !records_header(&response.headers, "access-control-allow-origin") {
        let ghost before = headers;
        let line = ("access-control-allow-origin".to_owned(), "*".to_owned());
        headers.push(line);
        proof {
            lemma_push_deep_view(before, headers, line);
        }
    }
    assert(headers.deep_view() =~= recorded_lines(response@.headers) + origin_line(
        response@.headers,
    ));
    let body = match &response.body {
        Body::Present(bytes, declared, _) => {
            if !records_header(&response.headers, "content-type") {
                let content_type = match declared {
                    Some(declared) => declared.clone(),
                    None => match detect_content_type(bytes) {
                        Some(detected) => detected,
                        None => "text/plain".to_owned(),
                    },
                };
                let ghost before = headers;
                let line = ("content-type".to_owned(), content_type);
                headers.push(line);
                proof {
                    lemma_push_deep_view(before, headers, line);
                }
            }
            bytes.clone()
        },
        _ => Vec::new(),
    };
    assert(headers.deep_view() =~= wire_headers(response@));
    WireResponse { status: response.status, headers, body }
}

/// The place of a recorded header value among the lines that go out: after the lines of the
/// headers before it and the values before it.
pub open spec fn line_of_value(headers: HeadersView, i: int, j: int) -> int {
    flat(headers.take(i)).len() + j
}

/// Every value that a response records for a header goes out on a line of its own, in the
/// place that the order of the headers and of the values gives it: a header with two values
/// gives two lines.
pub proof fn lemma_wire_keeps_every_value(response: ResponseView, i: int, j: int)
    requires
        response.headers is Some,
        0 <= i < response.headers->0.len(),
        0 <= j < response.headers->0[i].1.len(),
    ensures
        0 <= line_of_value(response.headers->0, i, j) < wire_headers(response).len(),
        wire_headers(response)[line_of_value(response.headers->0, i, j)] == (
            response.headers->0[i].0,
            response.headers->0[i].1[j],
        ),
{
    let headers = response.headers->0;
    let part = |entry: (Seq<char>, Seq<Seq<char>>)| lines_of(entry);
    let before = headers.take(i);
    let after = headers.skip(i + 1);
    assert(headers =~= before.push(headers[i]) + after);
    assert(headers.map_values(part) =~= before.map_values(part).push(lines_of(headers[i]))
        + after.map_values(part));
    vstd::seq_lib::lemma_flatten_concat(
        before.map_values(part).push(lines_of(headers[i])),
        after.map_values(part),
    );
    before.map_values(part).lemma_flatten_push(lines_of(headers[i]));
    assert(flat(headers) =~= flat(before) + lines_of(headers[i]) + flat(after));
}

} // verus!
