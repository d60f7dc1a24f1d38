use pact_models::matchingrules::{MatchingRule, MatchingRules, RuleLogic};
use pact_models::path_exp::DocPath;
use pact_stub_server::engine::MismatchKind;
use pact_stub_server::model::{
    Body, Interaction, Pact, ProviderState, Request, Response, SynchronousHttp,
};
use pact_stub_server::pattern::regex_value;
use pact_models::generators::{Generator, GeneratorCategory, Generators};
use pact_stub_server::pattern::NamePattern;
use pact_stub_server::server::{
    accepts, answer, can_render, choose_best, contested_warning, fallback_response,
    find_matching_request as search, gather_candidates, handle_request as handle,
    method_supports_payload, passes_state_filter, path_verdict, rendered_response,
    response_or_not_found, select_interaction, verdict_survives, Choice, NoMatch,
};
use pact_stub_server::source::PactSource;

fn find_matching_request(
    request: &Request,
    auto_cors: bool,
    cors_referer: bool,
    sources: &Vec<(Pact, PactSource)>,
    provider_state: Option<&NamePattern>,
    empty_provider_states: bool,
) -> Result<Response, NoMatch> {
    search(request, auto_cors, cors_referer, sources, provider_state, empty_provider_states)
        .map(|reply| reply.response)
}

fn handle_request(
    request: &Request,
    auto_cors: bool,
    cors_referer: bool,
    sources: &Vec<(Pact, PactSource)>,
    provider_state: Option<&NamePattern>,
    empty_provider_states: bool,
) -> Response {
    handle(request, auto_cors, cors_referer, sources, provider_state, empty_provider_states)
        .response
}

fn pact_of(interactions: Vec<Interaction>) -> Pact {
    Pact { consumer: String::new(), provider: String::new(), interactions }
}

fn http(request: Request, status: u16) -> SynchronousHttp {
    SynchronousHttp::new(request, Response { status, ..Response::default() })
}

fn one_pact(interactions: Vec<SynchronousHttp>) -> Vec<(Pact, PactSource)> {
    vec![(pact_of(interactions.into_iter().map(Interaction::Http).collect()), PactSource::Unknown)]
}

fn json_body(text: &str) -> Body {
    Body::Present(text.as_bytes().to_vec(), None, None)
}

fn with_method(method: &str) -> Request {
    Request { method: method.to_string(), ..Request::default() }
}

fn states(names: Vec<&str>) -> Vec<ProviderState> {
    names.into_iter().map(|name| ProviderState { name: name.to_string() }).collect()
}

fn header_list(entries: Vec<(&str, Vec<&str>)>) -> Option<Vec<(String, Vec<String>)>> {
    Some(
        entries
            .into_iter()
            .map(|(name, values)| {
                (name.to_string(), values.into_iter().map(|value| value.to_string()).collect())
            })
            .collect(),
    )
}

fn preflight_reply(origin: &str) -> Response {
    Response {
        status: 200,
        headers: header_list(vec![
            ("Access-Control-Allow-Headers", vec!["*"]),
            (
                "Access-Control-Allow-Methods",
                vec!["GET, HEAD, POST, PUT, DELETE, CONNECT, OPTIONS, TRACE, PATCH"],
            ),
            ("Access-Control-Allow-Origin", vec![origin]),
        ]),
        body: Body::Missing,
    }
}

#[test]
fn request_with_another_method_is_not_found() {
    let sources = one_pact(vec![
        http(Request { method: "PUT".to_string(), path: "/x".to_string(), ..Request::default() }, 200),
        http(Request::default(), 200),
    ]);
    let request =
        Request { method: "POST".to_string(), path: "/x".to_string(), ..Request::default() };
    let response = handle_request(&request, false, false, &sources, None, false);
    assert_eq!(response, Response { status: 404, headers: None, body: Body::Missing });
}

#[test]
fn closest_match_by_body_wins() {
    let sources = one_pact(vec![
        http(
            Request { method: "PUT".to_string(), body: json_body("{\"a\":1,\"b\":2,\"c\":3}"), ..Request::default() },
            200,
        ),
        http(
            Request { method: "PUT".to_string(), body: json_body("{\"a\":2,\"b\":4,\"c\":6}"), ..Request::default() },
            201,
        ),
    ]);
    let request = Request { body: json_body("{\"a\":1,\"b\":4,\"c\":6}"), ..Request::default() };
    let get_sources = one_pact(vec![
        http(Request { body: json_body("{\"a\":1,\"b\":2,\"c\":3}"), ..Request::default() }, 200),
        http(Request { body: json_body("{\"a\":2,\"b\":4,\"c\":6}"), ..Request::default() }, 201),
    ]);
    assert_eq!(handle_request(&request, false, false, &get_sources, None, false).status, 201);

    let put = Request { method: "PUT".to_string(), ..request };
    assert_eq!(handle_request(&put, false, false, &sources, None, false).status, 404);
}

#[test]
fn options_request_gets_the_preflight_reply_when_asked_for() {
    let sources = one_pact(vec![http(Request::default(), 200)]);
    let request = with_method("OPTIONS");

    let response = handle_request(&request, true, false, &sources, None, false);
    assert_eq!(response, preflight_reply("*"));

    let response = handle_request(&request, false, false, &sources, None, false);
    assert_eq!(response.status, 404);
    assert_eq!(response.headers, None);
}

#[test]
fn preflight_reply_allows_the_referer_when_asked_for() {
    let sources = one_pact(vec![http(Request::default(), 200)]);
    let request = Request {
        method: "OPTIONS".to_string(),
        headers: header_list(vec![("Referer", vec!["https://a.example"])]),
        ..Request::default()
    };
    let response = handle_request(&request, true, true, &sources, None, false);
    assert_eq!(response, preflight_reply("https://a.example"));

    let response = handle_request(&request, true, false, &sources, None, false);
    assert_eq!(response, preflight_reply("*"));
}

#[test]
fn referer_with_several_values_is_joined() {
    let request = Request {
        method: "options".to_string(),
        headers: header_list(vec![
            ("Accept", vec!["*/*"]),
            ("REFERER", vec!["https://a.example", "https://b.example"]),
            ("referer", vec!["https://c.example"]),
        ]),
        ..Request::default()
    };
    assert_eq!(
        fallback_response(&request, true, true),
        Ok(preflight_reply("https://a.example, https://b.example"))
    );

    let without = with_method("OPTIONS");
    assert_eq!(fallback_response(&without, true, true), Ok(preflight_reply("*")));

    let empty = Request {
        method: "OPTIONS".to_string(),
        headers: header_list(vec![("Referer", vec![])]),
        ..Request::default()
    };
    assert_eq!(fallback_response(&empty, true, true), Ok(preflight_reply("")));
}

#[test]
fn request_without_match_fails_with_its_path() {
    let request = Request { path: "/orders/7".to_string(), ..Request::default() };
    let failure = fallback_response(&request, true, true).unwrap_err();
    assert_eq!(failure, NoMatch { path: "/orders/7".to_string() });
    assert_eq!(failure.message(), "No matching request found for path /orders/7");
    assert!(fallback_response(&with_method("OPTIONS"), false, true).is_err());
}

#[test]
fn not_found_allows_every_origin_when_preflights_are_answered() {
    let failure = || Err(NoMatch { path: "/".to_string() });
    assert_eq!(
        response_or_not_found(failure(), true),
        Response {
            status: 404,
            headers: header_list(vec![("Access-Control-Allow-Origin", vec!["*"])]),
            body: Body::Missing,
        }
    );
    assert_eq!(
        response_or_not_found(failure(), false),
        Response { status: 404, headers: None, body: Body::Missing }
    );
    let found = Response { status: 204, ..Response::default() };
    assert_eq!(response_or_not_found(Ok(found.clone()), true), found);
}

#[test]
fn preflight_does_not_replace_a_recorded_options_interaction() {
    let sources = one_pact(vec![http(with_method("OPTIONS"), 204)]);
    let request = with_method("OPTIONS");
    assert_eq!(handle_request(&request, true, true, &sources, None, false).status, 204);

    let rendered = Response { status: 204, ..Response::default() };
    assert_eq!(answer(Some(rendered.clone()), &request, true, false), Ok(rendered));
    assert_eq!(answer(None, &request, true, false), Ok(preflight_reply("*")));
}

#[test]
fn provider_state_filter_selects_by_name() {
    let mut one = http(Request::default(), 201);
    one.provider_states = states(vec!["state one"]);
    let mut two = http(Request::default(), 202);
    two.provider_states = states(vec!["state two"]);
    let mut three = http(Request::default(), 203);
    three.provider_states = states(vec!["state one", "state two", "state three"]);
    let sources = one_pact(vec![one, two, three]);
    let request = Request::default();

    let status = |pattern: &str| {
        let pattern = regex_value(pattern).unwrap();
        handle_request(&request, false, false, &sources, Some(&pattern), false).status
    };
    assert_eq!(status("state three"), 203);
    assert_eq!(status("state four"), 404);
    assert_eq!(status("state .*"), 201);
}

#[test]
fn interaction_without_states_passes_when_empty_states_are_included() {
    let pattern = regex_value("no such state").unwrap();
    assert!(passes_state_filter(&vec![], Some(&pattern), true));
    assert!(!passes_state_filter(&vec![], Some(&pattern), false));
    assert!(passes_state_filter(&states(vec![""]), Some(&pattern), true));
    assert!(!passes_state_filter(&states(vec![""]), Some(&pattern), false));
    assert!(!passes_state_filter(&states(vec!["other"]), Some(&pattern), true));
    assert!(passes_state_filter(&states(vec!["other"]), None, false));
    assert!(passes_state_filter(&states(vec!["x", "no such state here"]), Some(&pattern), false));
}

#[test]
fn repeated_query_parameter_is_matched_by_its_rules() {
    let values =
        |list: Vec<&str>| list.into_iter().map(|v| Some(v.to_string())).collect::<Vec<_>>();
    let mut interaction = http(
        Request {
            path: "/api".to_string(),
            query: Some(vec![("ids".to_string(), values(vec!["1", "2", "3", "4"]))]),
            ..Request::default()
        },
        200,
    );
    let mut rules = MatchingRules::default();
    let category = rules.add_category("query");
    category.add_rule(DocPath::new_unwrap("ids"), MatchingRule::MinType(2), RuleLogic::And);
    category.add_rule(DocPath::new_unwrap("ids[*]"), MatchingRule::Type, RuleLogic::And);
    interaction.request_rules = rules;
    let sources = one_pact(vec![interaction]);

    let status = |list: Vec<&str>| {
        let request = Request {
            path: "/api".to_string(),
            query: Some(vec![("ids".to_string(), values(list))]),
            ..Request::default()
        };
        handle_request(&request, false, false, &sources, None, false).status
    };
    assert_eq!(status(vec!["3"]), 404);
    assert_eq!(status(vec!["3", "1"]), 200);
    assert_eq!(status(vec!["id", "id", "id", "id"]), 200);
}

#[test]
fn path_rule_governs_the_path() {
    let mut interaction = http(Request { path: "/orders/1".to_string(), ..Request::default() }, 200);
    let mut rules = MatchingRules::default();
    rules.add_category("path").add_rule(
        DocPath::empty(),
        MatchingRule::Regex("/orders/\\d+".to_string()),
        RuleLogic::And,
    );
    interaction.request_rules = rules;
    let plain = http(Request { path: "/orders/1".to_string(), ..Request::default() }, 201);

    let fits = Request { path: "/orders/42".to_string(), ..Request::default() };
    let exact = Request { path: "/orders/1".to_string(), ..Request::default() };
    let not = Request { path: "/orders/x".to_string(), ..Request::default() };
    assert!(accepts(&interaction, &fits, None, false));
    assert!(accepts(&interaction, &exact, None, false));
    assert!(!accepts(&interaction, &not, None, false));
    assert!(!accepts(&plain, &fits, None, false));
    assert!(accepts(&plain, &exact, None, false));
}

#[test]
fn method_is_compared_without_regard_to_case() {
    let interaction = http(with_method("get"), 200);
    assert!(accepts(&interaction, &with_method("GET"), None, false));
    assert!(accepts(&interaction, &with_method("Get"), None, false));
    assert!(!accepts(&interaction, &with_method("PUT"), None, false));
}

#[test]
fn candidates_keep_load_order_and_leave_out_other_kinds() {
    let first = http(Request::default(), 201);
    let other_path = http(Request { path: "/x".to_string(), ..Request::default() }, 202);
    let second = http(Request::default(), 203);
    let third = http(Request::default(), 204);
    let sources = vec![
        (
            pact_of(vec![
                Interaction::Message("an event".to_string()),
                Interaction::Http(first),
                Interaction::Http(other_path),
            ]),
            PactSource::Unknown,
        ),
        (pact_of(vec![]), PactSource::Unknown),
        (
            pact_of(vec![Interaction::Http(second), Interaction::Http(third)]),
            PactSource::File("f".to_string()),
        ),
    ];
    let found = gather_candidates(&Request::default(), &sources, None, false);
    let statuses: Vec<u16> = found.iter().map(|interaction| interaction.response.status).collect();
    assert_eq!(statuses, vec![201, 203, 204]);
    assert!(!Interaction::Message("x".to_string()).is_http());
}

#[test]
fn no_candidate_means_no_interaction_is_selected() {
    let sources = one_pact(vec![http(Request { path: "/x".to_string(), ..Request::default() }, 200)]);
    assert!(select_interaction(&Request::default(), &sources, None, false).is_none());
    assert!(select_interaction(&Request::default(), &vec![], None, false).is_none());
    let request = Request { path: "/x".to_string(), ..Request::default() };
    let chosen = select_interaction(&request, &sources, None, false);
    assert_eq!(chosen.map(|selection| selection.interaction.response.status), Some(200));
    assert_eq!(chosen.map(|selection| selection.contested), Some(false));
}

#[test]
fn payload_methods_are_post_put_and_patch() {
    for method in ["POST", "PUT", "PATCH", "post", "Put", "patch"] {
        assert!(method_supports_payload(&with_method(method)), "{}", method);
    }
    for method in ["GET", "DELETE", "HEAD", "OPTIONS", "TRACE", "CONNECT", ""] {
        assert!(!method_supports_payload(&with_method(method)), "{}", method);
    }
}

#[test]
fn body_mismatch_counts_only_for_payload_methods_with_a_body() {
    let mismatch = Some(vec![MismatchKind::Header, MismatchKind::Body]);
    let body = json_body("{}");
    for method in ["GET", "DELETE", "HEAD", "OPTIONS"] {
        let request = Request { body: body.clone(), ..with_method(method) };
        assert!(verdict_survives(&mismatch, &request), "{}", method);
    }
    for method in ["POST", "PUT", "PATCH"] {
        let with_body = Request { body: body.clone(), ..with_method(method) };
        assert!(!verdict_survives(&mismatch, &with_body), "{}", method);
        for none in [Body::Missing, Body::Empty, Body::Null] {
            let without = Request { body: none, ..with_method(method) };
            assert!(verdict_survives(&mismatch, &without), "{}", method);
        }
    }
}

#[test]
fn method_path_and_query_mismatches_always_disqualify() {
    let request = Request::default();
    for kind in [MismatchKind::Method, MismatchKind::Path, MismatchKind::Query] {
        assert!(!verdict_survives(&Some(vec![MismatchKind::Header, kind]), &request));
    }
    for kind in [
        MismatchKind::Status,
        MismatchKind::Header,
        MismatchKind::BodyType,
        MismatchKind::Body,
        MismatchKind::Metadata,
    ] {
        assert!(verdict_survives(&Some(vec![kind]), &request));
    }
    assert!(verdict_survives(&Some(vec![]), &request));
    assert!(!verdict_survives(&None, &request));
}

#[test]
fn fewest_mismatches_win_and_the_earlier_wins_a_tie() {
    let request = Request::default();
    let header = MismatchKind::Header;
    let verdicts = vec![
        Some(vec![header, header]),
        None,
        Some(vec![header]),
        Some(vec![MismatchKind::Path]),
        Some(vec![header]),
        Some(vec![header, header, header]),
    ];
    assert_eq!(choose_best(&request, &verdicts), Some(Choice { index: 2, contested: true }));

    let tie = vec![Some(vec![header]), Some(vec![header])];
    assert_eq!(choose_best(&request, &tie), Some(Choice { index: 0, contested: true }));

    let single = vec![None, Some(vec![header])];
    assert_eq!(choose_best(&request, &single), Some(Choice { index: 1, contested: false }));

    let none = vec![None, Some(vec![MismatchKind::Query])];
    assert_eq!(choose_best(&request, &none), None);
    assert_eq!(choose_best(&request, &vec![]), None);
}

#[test]
fn same_request_gets_the_same_answer() {
    let sources = one_pact(vec![
        http(Request::default(), 201),
        http(Request::default(), 202),
        http(Request { path: "/x".to_string(), ..Request::default() }, 203),
    ]);
    let request = Request::default();
    let first = find_matching_request(&request, false, false, &sources, None, false);
    let second = find_matching_request(&request, false, false, &sources, None, false);
    assert_eq!(first, second);
    assert_eq!(first.map(|response| response.status), Ok(201));

    let regrouped = vec![
        (pact_of(vec![Interaction::Http(http(Request::default(), 201))]), PactSource::Unknown),
        (
            pact_of(vec![
                Interaction::Message("between".to_string()),
                Interaction::Http(http(Request::default(), 202)),
                Interaction::Http(http(Request { path: "/x".to_string(), ..Request::default() }, 203)),
            ]),
            PactSource::Unknown,
        ),
    ];
    let third = find_matching_request(&request, false, false, &regrouped, None, false);
    assert_eq!(third.map(|response| response.status), Ok(201));
}

#[test]
fn exact_request_gets_the_recorded_response() {
    let recorded = Response {
        status: 203,
        headers: header_list(vec![("X-Trace", vec!["a", "b"])]),
        body: json_body("{\"ok\": true}"),
    };
    let interaction = SynchronousHttp::new(
        Request { method: "DELETE".to_string(), path: "/orders/1".to_string(), ..Request::default() },
        recorded.clone(),
    );
    let sources = one_pact(vec![http(Request::default(), 200), interaction]);
    let request =
        Request { method: "DELETE".to_string(), path: "/orders/1".to_string(), ..Request::default() };
    assert_eq!(find_matching_request(&request, false, false, &sources, None, false), Ok(recorded));
}

#[test]
fn response_that_the_engine_cannot_take_is_sent_as_recorded() {
    let recorded = Response {
        status: 202,
        headers: header_list(vec![("Content-Type", vec![]), ("X-Id", vec!["7"])]),
        body: json_body("{}"),
    };
    let interaction = SynchronousHttp::new(Request::default(), recorded.clone());
    assert_eq!(rendered_response(&interaction), recorded);

    let plain = Response { status: 203, body: json_body("{\"a\": 1}"), ..Response::default() };
    let interaction = SynchronousHttp::new(Request::default(), plain.clone());
    assert_eq!(rendered_response(&interaction), plain);
}

#[test]
fn contested_choice_is_told_to_the_caller() {
    let request = Request::default();
    let two = one_pact(vec![http(Request::default(), 201), http(Request::default(), 202)]);
    let reply = search(&request, false, false, &two, None, false).unwrap();
    assert_eq!(reply.response.status, 201);
    assert!(reply.contested);
    assert!(handle(&request, false, false, &two, None, false).contested);

    let one = one_pact(vec![
        http(Request::default(), 201),
        http(Request { path: "/x".to_string(), ..Request::default() }, 202),
    ]);
    let reply = search(&request, false, false, &one, None, false).unwrap();
    assert_eq!(reply.response.status, 201);
    assert!(!reply.contested);

    let preflight = search(&with_method("OPTIONS"), true, false, &one, None, false).unwrap();
    assert!(!preflight.contested);
    let missing = Request { path: "/none".to_string(), ..Request::default() };
    assert!(!handle(&missing, false, false, &two, None, false).contested);
}

#[test]
fn contested_warning_names_method_and_path() {
    assert_eq!(
        contested_warning("GET", "/orders"),
        "Found more than one pact request for method GET and path '/orders', using the first one with the least number of mismatches"
    );
}

#[test]
fn path_without_rule_is_compared_exactly() {
    let interaction = http(Request { path: "/orders/1".to_string(), ..Request::default() }, 200);
    let same = Request { path: "/orders/1".to_string(), ..Request::default() };
    let other = Request { path: "/orders/1/".to_string(), ..Request::default() };
    let upper = Request { path: "/Orders/1".to_string(), ..Request::default() };
    assert!(path_verdict(&interaction, &same));
    assert!(!path_verdict(&interaction, &other));
    assert!(!path_verdict(&interaction, &upper));
}

fn with_generator(category: GeneratorCategory, generator: Generator, status: u16) -> SynchronousHttp {
    let mut generators = Generators::default();
    generators.add_generator(&category, generator);
    let mut interaction = SynchronousHttp::new(
        Request::default(),
        Response { status, body: json_body("{\"a\": 1}"), ..Response::default() },
    );
    interaction.response_generators = generators;
    interaction
}

#[test]
fn random_integer_with_an_empty_range_is_not_drawn() {
    for category in [GeneratorCategory::STATUS, GeneratorCategory::BODY, GeneratorCategory::HEADER] {
        let interaction = with_generator(category, Generator::RandomInt(10, 1), 203);
        assert!(!can_render(&interaction));
        assert_eq!(rendered_response(&interaction), interaction.response);
    }
    let top = with_generator(GeneratorCategory::BODY, Generator::RandomInt(i32::MAX, i32::MAX), 203);
    assert!(!can_render(&top));
    let status = with_generator(GeneratorCategory::STATUS, Generator::RandomInt(-1, 5), 203);
    assert!(!can_render(&status));
    let status = with_generator(GeneratorCategory::STATUS, Generator::RandomInt(65535, 65535), 203);
    assert!(!can_render(&status));
    assert_eq!(rendered_response(&status).status, 203);

    let sources = one_pact(vec![with_generator(
        GeneratorCategory::STATUS,
        Generator::RandomInt(10, 1),
        203,
    )]);
    assert_eq!(handle_request(&Request::default(), false, false, &sources, None, false).status, 203);
}

#[test]
fn random_integer_with_a_range_is_drawn() {
    let interaction = with_generator(GeneratorCategory::STATUS, Generator::RandomInt(210, 219), 200);
    assert!(can_render(&interaction));
    let status = rendered_response(&interaction).status;
    assert!((210..=219).contains(&status), "{}", status);

    let single = with_generator(GeneratorCategory::STATUS, Generator::RandomInt(204, 204), 200);
    assert_eq!(rendered_response(&single).status, 204);

    let plain = SynchronousHttp::new(Request::default(), Response::default());
    assert!(can_render(&plain));
    let other = with_generator(GeneratorCategory::BODY, Generator::RandomBoolean, 200);
    assert!(can_render(&other));
}
