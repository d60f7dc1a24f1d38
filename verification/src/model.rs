//! The contract model: requests, responses, interactions and pacts.
//!
//! Header and query maps are kept as lists of `(name, values)` in load order. A lookup takes
//! the first entry whose name fits.

use crate::rules::{no_generators, no_rules};
use crate::text::{lowercase_of, to_lowercase};
use pact_models::generators::Generators;
use pact_models::matchingrules::MatchingRules;
use vstd::prelude::*;

verus! {

/// How the bytes of a body are to be read, where the contract says so.
#[derive(Clone, Copy, Debug, PartialEq, Eq)]
pub enum ContentTypeHint {
    Binary,
    Text,
    Default,
}

/// The body of a request or response.
#[derive(Debug, PartialEq, Eq)]
pub enum Body {
    /// The contract does not mention a body.
    Missing,
    /// The contract holds an empty body.
    Empty,
    /// The contract holds the JSON value `null`.
    Null,
    /// Bytes, with the content type and the hint recorded for them.
    Present(Vec<u8>, Option<String>, Option<ContentTypeHint>),
}

/// The mathematical content of a body.
pub enum BodyView {
    Missing,
    Empty,
    Null,
    Present(Seq<u8>, Option<Seq<char>>, Option<ContentTypeHint>),
}

impl View for Body {
    type V = BodyView;

    open spec fn view(&self) -> BodyView {
        match *self {
            Body::Missing => BodyView::Missing,
            Body::Empty => BodyView::Empty,
            Body::Null => BodyView::Null,
            Body::Present(bytes, content_type, hint) => BodyView::Present(
                bytes@,
                content_type.deep_view(),
                hint,
            ),
        }
    }
}

impl BodyView {
    /// Whether the body holds bytes.
    pub open spec fn is_present(self) -> bool {
        self is Present
    }
}

impl Body {
    /// Whether the body holds bytes.
    pub fn is_present(&self) -> (present: bool)
        ensures
            present == self@.is_present(),
    {
        match self {
            Body::Present(_, _, _) => true,
            _ => false,
        }
    }
}

impl Clone for Body {
    fn clone(&self) -> (copy: Body)
        ensures
            copy@ == self@,
    {
        match self {
            Body::Missing => Body::Missing,
            Body::Empty => Body::Empty,
            Body::Null => Body::Null,
            Body::Present(bytes, content_type, hint) => {
                let content_type = match content_type {
                    Some(text) => Some(text.clone()),
                    None => None,
                };
                Body::Present(bytes.clone(), content_type, *hint)
            },
        }
    }
}

/// Header fields: each name with its values in order.
pub type Headers = Vec<(String, Vec<String>)>;

/// Query parameters: each name with its values in order; a parameter may have no value.
pub type Query = Vec<(String, Vec<Option<String>>)>;

/// The mathematical content of a header list.
pub type HeadersView = Seq<(Seq<char>, Seq<Seq<char>>)>;

/// The mathematical content of a query list.
pub type QueryView = Seq<(Seq<char>, Seq<Option<Seq<char>>>)>;

/// The values of the first header whose lower-case name is `lower_name`.
pub open spec fn header_values(headers: HeadersView, lower_name: Seq<char>) -> Option<
    Seq<Seq<char>>,
>
    decreases headers.len(),
{
    if headers.len() == 0 {
        None
    } else if lowercase_of(headers[0].0) == lower_name {
        Some(headers[0].1)
    } else {
        header_values(headers.drop_first(), lower_name)
    }
}

/// Looks a header up by the lower-case form of its name.
pub fn find_header<'a>(headers: &'a Headers, lower_name: &str) -> (values: Option<
    &'a Vec<String>,
>)
    ensures
        values.deep_view() == header_values(headers.deep_view(), lower_name@),
{
    let ghost all = headers.deep_view();
    assert(all.skip(0) =~= all);
    for i in 0..headers.len()
        invariant
            all == headers.deep_view(),
            header_values(all, lower_name@) == header_values(all.skip(i as int), lower_name@),
    {
        let lower = to_lowercase(headers[i].0.as_str());
        proof {
            assert(all.skip(i as int)[0] == all[i as int]);
            assert(all.skip(i as int).drop_first() =~= all.skip(i + 1));
            assert(all[i as int] == headers@[i as int].deep_view());
        }
        if lower.as_str().eq(lower_name) {
            return Some(&headers[i].1);
        }
    }
    None
}

/// Whether every header with this lower-case name holds a value.
pub open spec fn header_has_value(headers: Option<HeadersView>, lower_name: Seq<char>) -> bool {
    match headers {
        None => true,
        Some(headers) => forall|i: int|
            0 <= i < headers.len() && lowercase_of(#[trigger] headers[i].0) == lower_name
                ==> headers[i].1.len() > 0,
    }
}

/// Whether every header named `content-type` holds a value. The outside engine reads the
/// first value of such a header without looking whether there is one.
pub open spec fn content_type_has_value(headers: Option<HeadersView>) -> bool {
    header_has_value(headers, "content-type"@)
}

/// Whether every header with this lower-case name holds a value.
pub fn has_header_value(headers: &Option<Headers>, lower_name: &str) -> (usable: bool)
    ensures
        usable == header_has_value(headers.deep_view(), lower_name@),
{
    match headers {
        None => true,
        Some(list) => {
            for i in 0..list.len()
                invariant
                    *headers == Some(*list),
                    forall|j: int|
                        0 <= j < i && lowercase_of(#[trigger] list.deep_view()[j].0)
                            == lower_name@ ==> list.deep_view()[j].1.len() > 0,
            {
                let lower = to_lowercase(list[i].0.as_str());
                assert(list.deep_view()[i as int] == list@[i as int].deep_view());
                assert(list.deep_view()[i as int].1.len() == list@[i as int].1@.len());
                if lower.as_str().eq(lower_name) && list[i].1.len() == 0 {
                    assert(headers.deep_view()->0 == list.deep_view());
                    assert(lowercase_of(list.deep_view()[i as int].0) == lower_name@);
                    assert(list.deep_view()[i as int].1.len() == 0);
                    return false;
                }
            }
            true
        },
    }
}

/// Whether every header named `content-type` holds a value.
pub fn has_content_type_value(headers: &Option<Headers>) -> (usable: bool)
    ensures
        usable == content_type_has_value(headers.deep_view()),
{
    has_header_value(headers, "content-type")
}

/// A copy of a list of texts.
pub fn copy_values(values: &Vec<String>) -> (copy: Vec<String>)
    ensures
        copy.deep_view() == values.deep_view(),
{
    let mut copy: Vec<String> = Vec::new();
    for i in 0..values.len()
        invariant
            copy@.len() == i,
            forall|j: int| 0 <= j < i ==> copy@[j]@ == values@[j]@,
    {
        copy.push(values[i].clone());
    }
    assert(copy.deep_view() =~= values.deep_view());
    copy
}

/// A copy of a list of query values.
pub fn copy_query_values(values: &Vec<Option<String>>) -> (copy: Vec<Option<String>>)
    ensures
        copy.deep_view() == values.deep_view(),
{
    let mut copy: Vec<Option<String>> = Vec::new();
    for i in 0..values.len()
        invariant
            copy@.len() == i,
            forall|j: int| 0 <= j < i ==> copy@[j].deep_view() == values@[j].deep_view(),
    {
        let value = match &values[i] {
            Some(text) => Some(text.clone()),
            None => None,
        };
        copy.push(value);
    }
    assert(copy.deep_view() =~= values.deep_view());
    copy
}

/// A copy of a header list.
pub fn copy_headers(headers: &Headers) -> (copy: Headers)
    ensures
        copy.deep_view() == headers.deep_view(),
{
    let mut copy: Headers = Vec::new();
    for i in 0..headers.len()
        invariant
            copy@.len() == i,
            forall|j: int| 0 <= j < i ==> copy@[j].deep_view() == headers@[j].deep_view(),
    {
        copy.push((headers[i].0.clone(), copy_values(&headers[i].1)));
    }
    assert(copy.deep_view() =~= headers.deep_view());
    copy
}

/// A copy of a query list.
pub fn copy_query(query: &Query) -> (copy: Query)
    ensures
        copy.deep_view() == query.deep_view(),
{
    let mut copy: Query = Vec::new();
    for i in 0..query.len()
        invariant
            copy@.len() == i,
            forall|j: int| 0 <= j < i ==> copy@[j].deep_view() == query@[j].deep_view(),
    {
        copy.push((query[i].0.clone(), copy_query_values(&query[i].1)));
    }
    assert(copy.deep_view() =~= query.deep_view());
    copy
}

/// An HTTP request: the one that came in, or the one an interaction expects.
#[derive(Debug, PartialEq, Eq)]
pub struct Request {
    pub method: String,
    pub path: String,
    pub query: Option<Query>,
    pub headers: Option<Headers>,
    pub body: Body,
}

/// The mathematical content of a request.
pub struct RequestView {
    pub method: Seq<char>,
    pub path: Seq<char>,
    pub query: Option<QueryView>,
    pub headers: Option<HeadersView>,
    pub body: BodyView,
}

impl View for Request {
    type V = RequestView;

    open spec fn view(&self) -> RequestView {
        RequestView {
            method: self.method@,
            path: self.path@,
            query: self.query.deep_view(),
            headers: self.headers.deep_view(),
            body: self.body@,
        }
    }
}

impl Clone for Request {
    fn clone(&self) -> (copy: Request)
        ensures
            copy@ == self@,
    {
        let query = match &self.query {
            Some(query) => Some(copy_query(query)),
            None => None,
        };
        let headers = match &self.headers {
            Some(headers) => Some(copy_headers(headers)),
            None => None,
        };
        Request {
            method: self.method.clone(),
            path: self.path.clone(),
            query,
            headers,
            body: self.body.clone(),
        }
    }
}

impl Default for Request {
    /// `GET /` without query, headers or body.
    fn default() -> (request: Request)
        ensures
            request@ == (RequestView {
                method: "GET"@,
                path: "/"@,
                query: None,
                headers: None,
                body: BodyView::Missing,
            }),
    {
        Request {
            method: "GET".to_owned(),
            path: "/".to_owned(),
            query: None,
            headers: None,
            body: Body::Missing,
        }
    }
}

/// An HTTP response: the one an interaction records, or the one that is sent.
#[derive(Debug, PartialEq, Eq)]
pub struct Response {
    pub status: u16,
    pub headers: Option<Headers>,
    pub body: Body,
}

/// The mathematical content of a response.
pub struct ResponseView {
    pub status: u16,
    pub headers: Option<HeadersView>,
    pub body: BodyView,
}

impl View for Response {
    type V = ResponseView;

    open spec fn view(&self) -> ResponseView {
        ResponseView { status: self.status, headers: self.headers.deep_view(), body: self.body@ }
    }
}

impl Clone for Response {
    fn clone(&self) -> (copy: Response)
        ensures
            copy@ == self@,
    {
        let headers = match &self.headers {
            Some(headers) => Some(copy_headers(headers)),
            None => None,
        };
        Response { status: self.status, headers, body: self.body.clone() }
    }
}

impl Default for Response {
    /// Status 200 without headers or body.
    fn default() -> (response: Response)
        ensures
            response@ == (ResponseView { status: 200, headers: None, body: BodyView::Missing }),
    {
        Response { status: 200, headers: None, body: Body::Missing }
    }
}

/// A state that the provider must be in for an interaction to apply.
#[derive(Clone, Debug, PartialEq, Eq)]
pub struct ProviderState {
    pub name: String,
}

/// One recorded request and response over HTTP, with the rules for comparing requests with the
/// recorded one and the rules and generators for rendering the response.
#[derive(Clone, Debug, PartialEq, Eq)]
pub struct SynchronousHttp {
    pub description: String,
    pub provider_states: Vec<ProviderState>,
    pub request: Request,
    pub response: Response,
    pub request_rules: MatchingRules,
    pub response_rules: MatchingRules,
    pub response_generators: Generators,
}

impl SynchronousHttp {
    /// An interaction without description, provider states, rules or generators.
    pub fn new(request: Request, response: Response) -> (interaction: SynchronousHttp)
        ensures
            interaction.description@.len() == 0,
            interaction.provider_states@.len() == 0,
            interaction.request == request,
            interaction.response == response,
    {
        SynchronousHttp {
            description: String::new(),
            provider_states: Vec::new(),
            request,
            response,
            request_rules: no_rules(),
            response_rules: no_rules(),
            response_generators: no_generators(),
        }
    }
}

/// An interaction of a pact. Only the synchronous HTTP kind takes part in matching; of the
/// other kinds the description is kept.
#[derive(Clone, Debug, PartialEq, Eq)]
pub enum Interaction {
    Http(SynchronousHttp),
    Message(String),
}

impl Interaction {
    /// The HTTP interaction, where this is one.
    pub open spec fn http(self) -> Option<SynchronousHttp> {
        match self {
            Interaction::Http(http) => Some(http),
            Interaction::Message(_) => None,
        }
    }

    /// Whether this is a synchronous HTTP interaction.
    pub fn is_http(&self) -> (is_http: bool)
        ensures
            is_http == self.http() is Some,
    {
        match self {
            Interaction::Http(_) => true,
            Interaction::Message(_) => false,
        }
    }
}

/// A contract between a consumer and a provider: its interactions in the order of the file.
#[derive(Clone, Debug, PartialEq, Eq)]
pub struct Pact {
    pub consumer: String,
    pub provider: String,
    pub interactions: Vec<Interaction>,
}

} // verus!
