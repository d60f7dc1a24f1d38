//! The outside matcher and generator engine, behind contracts.
//!
//! Everything here is believed, not proved: each item names the outside function that it
//! calls and says what is claimed of it.

use crate::model::{
    content_type_has_value, header_has_value, Body, ContentTypeHint, Query, QueryView, Request,
    Response, SynchronousHttp,
};
use crate::text::same_ignoring_case;
use base64::Engine;
use futures::FutureExt;
use pact_matching::{CoreMatchingContext, DiffConfig, MatchingContext, Mismatch};
use pact_models::bodies::OptionalBody;
use pact_models::content_types::ContentType;
use pact_models::generators::{Generator, GeneratorCategory, GeneratorTestMode, Generators};
use pact_models::interaction::Interaction;
use pact_models::matchingrules::MatchingRules;
use pact_models::pact::Pact;
use pact_models::path_exp::DocPath;
use pact_models::http_parts::HttpPart;
use pact_models::v4::http_parts::{HttpRequest, HttpResponse};
use pact_models::v4::pact::V4Pact;
use std::collections::HashMap;
use vstd::prelude::*;

verus! {

#[verifier::external_type_specification]
#[verifier::external_body]
pub struct ExOptionalBody(OptionalBody);

#[verifier::external_type_specification]
#[verifier::external_body]
pub struct ExHttpRequest(HttpRequest);

#[verifier::external_type_specification]
#[verifier::external_body]
pub struct ExHttpResponse(HttpResponse);

#[verifier::external_type_specification]
#[verifier::external_body]
pub struct ExMismatch(Mismatch);

#[verifier::external_type_specification]
#[verifier::external_body]
pub struct ExGenerator(Generator);

/// What a request and the request of an interaction can differ in.
#[derive(Clone, Copy, Debug, PartialEq, Eq)]
pub enum MismatchKind {
    Method,
    Path,
    Status,
    Query,
    Header,
    BodyType,
    Body,
    Metadata,
}

impl DeepView for MismatchKind {
    type V = MismatchKind;

    open spec fn deep_view(&self) -> MismatchKind {
        *self
    }
}

/// Whether the rules define a matcher for the path: what `MatchingContext::matcher_is_defined`
/// says of the empty path in a context that holds the `path` category of the rules.
pub uninterp spec fn path_rule_defined(rules: MatchingRules) -> bool;

/// The part of a response that a generator works on.
#[derive(Clone, Copy, Debug, PartialEq, Eq)]
pub enum ResponsePart {
    Status,
    Headers,
    Body,
}

/// What the library reads of a generator: the bounds of one that draws a random integer,
/// and of the others whether they hold generators of their own.
#[derive(Clone, Copy, Debug, PartialEq, Eq)]
pub enum GeneratorKind {
    /// A random integer from the first bound up to the second, both included.
    RandomInt(i32, i32),
    /// A generator for the items of an array, with generators of its own.
    ArrayContains,
    /// Any other generator.
    Other,
}

/// The generators that `HttpPart::build_generators` finds for a part of a response: those
/// that the generators hold for the part and those that the rules for the part bring along.
pub uninterp spec fn applied_generators(
    generators: Generators,
    rules: MatchingRules,
    part: ResponsePart,
) -> Set<Generator>;

/// What the library reads of a generator.
pub uninterp spec fn generator_kind(generator: Generator) -> GeneratorKind;

/// The content type that `detect_content_type_from_bytes` reads off the start of a body, as
/// text; `None` where it reads none.
pub uninterp spec fn detected_content_type(bytes: Seq<u8>) -> Option<Seq<char>>;

/// What `parse_query_string` makes of a query string: each parameter name with its values
/// in the order of the string; `None` for the empty string.
pub uninterp spec fn parsed_query(query: Seq<char>) -> Option<
    Map<Seq<char>, Seq<Option<Seq<char>>>>,
>;

/// Whether a list holds the entries of a map, each key once.
pub open spec fn lists_map(list: QueryView, map: Map<Seq<char>, Seq<Option<Seq<char>>>>) -> bool {
    &&& forall|i: int, j: int| 0 <= i < j < list.len() ==> list[i].0 != list[j].0
    &&& forall|i: int|
        0 <= i < list.len() ==> map.contains_key(#[trigger] list[i].0) && map[list[i].0]
            == list[i].1
    &&& forall|name: Seq<char>| #[trigger]
        map.contains_key(name) ==> exists|i: int| 0 <= i < list.len() && list[i].0 == name
}

/// The standard base64 form of a run of bytes, with padding.
pub uninterp spec fn base64_of(bytes: Seq<u8>) -> Seq<char>;

/// Calls `Engine::encode` of `base64` on its `STANDARD` engine. The call panics where the
/// length of the result would not fit the machine word, which inputs of up to half that
/// range are clear of.
#[verifier::external_body]
pub(crate) fn encode_base64(bytes: &Vec<u8>) -> (text: String)
    requires
        bytes@.len() <= usize::MAX / 2,
    ensures
        text@ == base64_of(bytes@),
{
    base64::engine::general_purpose::STANDARD.encode(bytes)
}

/// Calls `pact_models::content_types::detect_content_type_from_bytes`, which looks at the
/// first bytes of a body, and hands the content type back as text. This is what
/// `HttpResponse::content_type` comes down to for a body without a content type of its own
/// in a response without a `Content-Type` header.
#[verifier::external_body]
pub(crate) fn detect_content_type(bytes: &Vec<u8>) -> (detected: Option<String>)
    ensures
        detected.deep_view() == detected_content_type(bytes@),
{
    pact_models::content_types::detect_content_type_from_bytes(bytes).map(|found| found.to_string())
}

/// Calls `pact_models::query_strings::parse_query_string`, which gives no map for the empty
/// string and else a map from each parameter name to its values. The entries of the map are
/// handed back as a list, in no particular order.
#[verifier::external_body]
pub(crate) fn parse_query(query: &str) -> (parsed: Option<Query>)
    ensures
        parsed is Some <==> query@.len() > 0,
        parsed is Some <==> parsed_query(query@) is Some,
        parsed is Some ==> lists_map(parsed.deep_view()->0, parsed_query(query@)->0),
{
    pact_models::query_strings::parse_query_string(query).map(|map| map.into_iter().collect())
}

/// Calls `pact_matching::match_method`, which accepts the method when the lower-case forms of
/// the two methods are equal.
#[verifier::external_body]
pub(crate) fn method_matches(expected: &str, actual: &str) -> (accepted: bool)
    ensures
        accepted == same_ignoring_case(expected@, actual@),
{
    pact_matching::match_method(expected, actual).is_ok()
}

/// Calls `MatchingContext::matcher_is_defined` for the empty path, on a context that holds
/// the `path` category of the rules as `match_request` builds it.
#[verifier::external_body]
pub(crate) fn has_path_rule(rules: &MatchingRules) -> (defined: bool)
    ensures
        defined == path_rule_defined(*rules),
{
    let category = rules.rules_for_category("path").unwrap_or_default();
    let context = CoreMatchingContext::new(DiffConfig::NoUnexpectedKeys, &category);
    context.matcher_is_defined(&DocPath::empty())
}

/// Calls `pact_matching::match_path` with a context that holds the `path` category of the
/// rules. Under rules the verdict may depend on more than the paths and the rules, so
/// nothing is claimed of it.
#[verifier::external_body]
pub(crate) fn path_matches(expected: &str, actual: &str, rules: &MatchingRules) -> bool {
    let category = rules.rules_for_category("path").unwrap_or_default();
    let context = CoreMatchingContext::new(DiffConfig::NoUnexpectedKeys, &category);
    pact_matching::match_path(expected, actual, &context).is_ok()
}

/// Calls `HttpPart::build_generators` on the recorded response of an interaction and hands
/// out the generators that it finds for a part, in no particular order.
#[verifier::external_body]
pub(crate) fn generators_for(interaction: &SynchronousHttp, part: ResponsePart) -> (found: Vec<
    Generator,
>)
    ensures
        found@.to_set() == applied_generators(
            interaction.response_generators,
            interaction.response_rules,
            part,
        ),
{
    let category = match part {
        ResponsePart::Status => GeneratorCategory::STATUS,
        ResponsePart::Headers => GeneratorCategory::HEADER,
        ResponsePart::Body => GeneratorCategory::BODY,
    };
    outside_response(interaction).build_generators(&category).into_values().collect()
}

/// Tells the variants of `pact_models::generators::Generator` apart that the library has to
/// know, and hands out the bounds of a random integer.
#[verifier::external_body]
pub(crate) fn kind_of_generator(generator: &Generator) -> (kind: GeneratorKind)
    ensures
        kind == generator_kind(*generator),
{
    match generator {
        Generator::RandomInt(min, max) => GeneratorKind::RandomInt(*min, *max),
        Generator::ArrayContains(_) => GeneratorKind::ArrayContains,
        Generator::Uuid(_) | Generator::RandomDecimal(_) | Generator::RandomHexadecimal(_)
        | Generator::RandomString(_) | Generator::Regex(_) | Generator::Date(_, _)
        | Generator::Time(_, _) | Generator::DateTime(_, _) | Generator::RandomBoolean
        | Generator::ProviderStateGenerator(_, _) | Generator::MockServerURL(_, _)
        | Generator::Plugin { .. } => GeneratorKind::Other,
    }
}

/// Builds the body of the contract model from a body of the library.
#[verifier::external_body]
fn outside_body(body: &Body) -> OptionalBody {
    match body {
        Body::Missing => OptionalBody::Missing,
        Body::Empty => OptionalBody::Empty,
        Body::Null => OptionalBody::Null,
        Body::Present(bytes, content_type, hint) => OptionalBody::Present(
            bytes.clone().into(),
            content_type.as_ref().and_then(|text| ContentType::parse(text.as_str()).ok()),
            hint.map(|hint| match hint {
                ContentTypeHint::Binary => pact_models::content_types::ContentTypeHint::BINARY,
                ContentTypeHint::Text => pact_models::content_types::ContentTypeHint::TEXT,
                ContentTypeHint::Default => pact_models::content_types::ContentTypeHint::DEFAULT,
            }),
        ),
    }
}

/// Builds a body of the library from a body of the contract model.
#[verifier::external_body]
fn inside_body(body: &OptionalBody) -> Body {
    match body {
        OptionalBody::Missing => Body::Missing,
        OptionalBody::Empty => Body::Empty,
        OptionalBody::Null => Body::Null,
        OptionalBody::Present(bytes, content_type, hint) => Body::Present(
            bytes.to_vec(),
            content_type.as_ref().map(|content_type| content_type.to_string()),
            hint.map(|hint| match hint {
                pact_models::content_types::ContentTypeHint::BINARY => ContentTypeHint::Binary,
                pact_models::content_types::ContentTypeHint::TEXT => ContentTypeHint::Text,
                pact_models::content_types::ContentTypeHint::DEFAULT => ContentTypeHint::Default,
            }),
        ),
    }
}

/// Builds a request of the contract model from a request of the library and its rules.
#[verifier::external_body]
fn outside_request(request: &Request, rules: &MatchingRules) -> HttpRequest {
    HttpRequest {
        method: request.method.clone(),
        path: request.path.clone(),
        query: request.query.as_ref().map(|query| query.iter().cloned().collect()),
        headers: request.headers.as_ref().map(|headers| headers.iter().cloned().collect()),
        body: outside_body(&request.body),
        matching_rules: rules.clone(),
        generators: Generators::default(),
    }
}

/// Builds a response of the contract model from the recorded response of an interaction.
#[verifier::external_body]
fn outside_response(interaction: &SynchronousHttp) -> HttpResponse {
    HttpResponse {
        status: interaction.response.status,
        headers: interaction.response.headers.as_ref().map(|h| h.iter().cloned().collect()),
        body: outside_body(&interaction.response.body),
        matching_rules: interaction.response_rules.clone(),
        generators: interaction.response_generators.clone(),
    }
}

/// Tells the variants of `pact_matching::Mismatch` apart.
#[verifier::external_body]
pub(crate) fn mismatch_kind(mismatch: &Mismatch) -> MismatchKind {
    match mismatch {
        Mismatch::MethodMismatch { .. } => MismatchKind::Method,
        Mismatch::PathMismatch { .. } => MismatchKind::Path,
        Mismatch::StatusMismatch { .. } => MismatchKind::Status,
        Mismatch::QueryMismatch { .. } => MismatchKind::Query,
        Mismatch::HeaderMismatch { .. } => MismatchKind::Header,
        Mismatch::BodyTypeMismatch { .. } => MismatchKind::BodyType,
        Mismatch::BodyMismatch { .. } => MismatchKind::Body,
        Mismatch::MetadataMismatch { .. } => MismatchKind::Metadata,
    }
}

/// Calls `pact_matching::match_request` on the recorded request of an interaction and an
/// actual request, and hands back the mismatches that it lists. `None` where the matcher
/// reports an error or does not finish at once.
///
/// The matcher may follow settings of the process environment, so nothing is claimed of the
/// outcome. One of its engines reads the first value of a header of the actual request
/// without looking whether there is one, in two places: where it resolves the first value
/// of an `accept` or `content-type` header, and in the `calc_content_type` behind
/// `HttpRequest::content_type`. An actual request with such a header without values is left
/// out.
#[verifier::external_body]
pub(crate) fn request_mismatches(interaction: &SynchronousHttp, actual: &Request) -> Option<
    Vec<Mismatch>,
>
    requires
        header_has_value(actual@.headers, "content-type"@),
        header_has_value(actual@.headers, "accept"@),
{
    let expected = outside_request(&interaction.request, &interaction.request_rules);
    let actual = outside_request(actual, &MatchingRules::default());
    let recorded = pact_models::v4::synch_http::SynchronousHttp {
        request: expected.clone(),
        ..Default::default()
    };
    let pact = Pact::boxed(&V4Pact::default());
    let recorded = Interaction::boxed(&recorded);
    let verdict = pact_matching::match_request(expected, actual, &pact, &recorded);
    Some(verdict.now_or_never()?.ok()?.mismatches())
}

/// Whether a generator of this kind can be applied to a part of a response. A random
/// integer is drawn from a range that must not be empty: for the status the bounds are read
/// as 16-bit numbers, elsewhere the upper bound is raised by one unless it is the largest
/// number. The generators inside one for the items of an array are not looked into, so in a
/// body, where they are applied, such a generator is not taken.
pub open spec fn kind_is_safe(kind: GeneratorKind, part: ResponsePart) -> bool {
    match kind {
        GeneratorKind::RandomInt(min, max) => match part {
            ResponsePart::Status => 0 <= min && min <= max && max <= 65534,
            _ => min <= max && min < i32::MAX,
        },
        GeneratorKind::ArrayContains => !(part is Body),
        GeneratorKind::Other => true,
    }
}

/// Whether all the generators for a part of the response of an interaction can be applied.
pub open spec fn part_is_safe(interaction: SynchronousHttp, part: ResponsePart) -> bool {
    forall|generator: Generator| #[trigger]
        applied_generators(
            interaction.response_generators,
            interaction.response_rules,
            part,
        ).contains(generator) ==> kind_is_safe(generator_kind(generator), part)
}

/// Whether the response of an interaction can be handed to the generator engine: all its
/// generators can be applied, and no `content-type` header is without a value.
pub open spec fn renders_safely(interaction: SynchronousHttp) -> bool {
    &&& content_type_has_value(interaction.response@.headers)
    &&& part_is_safe(interaction, ResponsePart::Status)
    &&& part_is_safe(interaction, ResponsePart::Headers)
    &&& part_is_safe(interaction, ResponsePart::Body)
}

/// Calls `pact_matching::generate_response` in provider mode on the recorded response of an
/// interaction. `None` where the engine does not finish at once.
///
/// Generators draw on the clock and on random numbers, so nothing is claimed of the outcome.
/// Two things make the engine panic and are left out. A random integer is drawn with
/// `random_range`, which refuses an empty range. And for a body with generators the engine
/// asks `HttpResponse::content_type`, whose `calc_content_type` reads the first value of a
/// `content-type` header without looking whether there is one.
#[verifier::external_body]
pub(crate) fn render_response(interaction: &SynchronousHttp) -> Option<Response>
    requires
        renders_safely(*interaction),
{
    let recorded = outside_response(interaction);
    let context = HashMap::new();
    let rendered = pact_matching::generate_response(
        &recorded,
        &GeneratorTestMode::Provider,
        &context,
    ).now_or_never()?;
    Some(
        Response {
            status: rendered.status,
            headers: rendered.headers.map(|headers| headers.into_iter().collect()),
            body: inside_body(&rendered.body),
        },
    )
}

} // verus!
