use pact_models::matchingrules::{MatchingRule, MatchingRules, RuleLogic};
use pact_models::path_exp::DocPath;
use pact_stub_server::model::{
    Body, Interaction, Pact, ProviderState, Request, Response, SynchronousHttp,
};
use pact_stub_server::pattern::regex_value;
use pact_stub_server::pattern::NamePattern;
use pact_stub_server::server::{find_matching_request as search, NoMatch};
use pact_stub_server::source::PactSource;

fn find_matching_request(
    request: &Request,
    auto_cors: bool,
    cors_referer: bool,
    sources: &Vec<(Pact, PactSource)>,
    provider_state: Option<&NamePattern>,
    empty_provider_states: bool,
) -> Result<Response, NoMatch> {
    search(request, auto_cors, cors_referer, sources, provider_state, empty_provider_states)
        .map(|reply| reply.response)
}

fn pact_of(interactions: Vec<SynchronousHttp>) -> Pact {
    Pact {
        consumer: String::new(),
        provider: String::new(),
        interactions: interactions.into_iter().map(Interaction::Http).collect(),
    }
}

fn sources_of(pacts: Vec<Pact>) -> Vec<(Pact, PactSource)> {
    pacts.into_iter().map(|pact| (pact, PactSource::Unknown)).collect()
}

fn json_body(text: &str) -> Body {
    Body::Present(text.as_bytes().to_vec(), None, None)
}

fn rules_of(category: &str, entries: Vec<(&'static str, MatchingRule)>) -> MatchingRules {
    let mut rules = MatchingRules::default();
    let category = rules.add_category(category);
    for (path, rule) in entries {
        category.add_rule(DocPath::new_unwrap(path), rule, RuleLogic::And);
    }
    rules
}

fn states(names: Vec<&str>) -> Vec<ProviderState> {
    names.into_iter().map(|name| ProviderState { name: name.to_string() }).collect()
}

fn query_of(name: &str, values: Vec<&str>) -> Option<Vec<(String, Vec<Option<String>>)>> {
    Some(vec![(name.to_string(), values.into_iter().map(|v| Some(v.to_string())).collect())])
}

#[test]
fn match_request_finds_the_most_appropriate_response() {
    let interaction1 = SynchronousHttp::new(Request::default(), Response::default());
    let interaction2 = SynchronousHttp::new(Request::default(), Response::default());
    let pact = pact_of(vec![interaction1.clone(), interaction2]);

    let request1 = Request::default();

    assert_eq!(
        find_matching_request(&request1, false, false, &sources_of(vec![pact]), None, false),
        Ok(interaction1.response)
    );
}

#[test]
fn match_request_excludes_requests_with_different_methods() {
    let interaction1 = SynchronousHttp::new(
        Request { method: "PUT".to_string(), ..Request::default() },
        Response::default(),
    );
    let interaction2 = SynchronousHttp::new(Request::default(), Response::default());
    let pact = pact_of(vec![interaction1, interaction2]);

    let request1 = Request { method: "POST".to_string(), ..Request::default() };

    assert!(
        find_matching_request(&request1, false, false, &sources_of(vec![pact]), None, false)
            .is_err()
    );
}

#[test]
fn match_request_excludes_requests_with_different_paths() {
    let interaction1 = SynchronousHttp::new(
        Request { path: "/one".to_string(), ..Request::default() },
        Response::default(),
    );
    let interaction2 = SynchronousHttp::new(Request::default(), Response::default());
    let pact = pact_of(vec![interaction1, interaction2]);

    let request1 = Request { path: "/two".to_string(), ..Request::default() };

    assert!(
        find_matching_request(&request1, false, false, &sources_of(vec![pact]), None, false)
            .is_err()
    );
}

#[test]
fn match_request_excludes_requests_with_different_query_params() {
    let interaction1 = SynchronousHttp::new(
        Request { query: query_of("A", vec!["B"]), ..Request::default() },
        Response::default(),
    );
    let interaction2 = SynchronousHttp::new(Request::default(), Response::default());
    let pact = pact_of(vec![interaction1, interaction2]);

    let request1 = Request { query: query_of("A", vec!["C"]), ..Request::default() };

    assert!(
        find_matching_request(&request1, false, false, &sources_of(vec![pact]), None, false)
            .is_err()
    );
}

#[test]
fn match_request_excludes_put_or_post_requests_with_different_bodies() {
    let interaction1 = SynchronousHttp::new(
        Request {
            method: "PUT".to_string(),
            body: json_body("{\"a\": 1, \"b\": 2, \"c\": 3}"),
            ..Request::default()
        },
        Response { status: 200, ..Response::default() },
    );

    let mut interaction2 = SynchronousHttp::new(
        Request {
            method: "PUT".to_string(),
            body: json_body("{\"a\": 2, \"b\": 4, \"c\": 6}"),
            ..Request::default()
        },
        Response { status: 201, ..Response::default() },
    );
    interaction2.request_rules = rules_of("body", vec![("$.c", MatchingRule::Integer)]);

    let sources = sources_of(vec![pact_of(vec![interaction1, interaction2])]);

    let request1 = Request {
        method: "PUT".to_string(),
        body: json_body("{\"a\": 1, \"b\": 2, \"c\": 3}"),
        ..Request::default()
    };
    let request2 = Request {
        method: "PUT".to_string(),
        body: json_body("{\"a\": 2, \"b\": 5, \"c\": 3}"),
        ..Request::default()
    };
    let request3 = Request {
        method: "PUT".to_string(),
        body: json_body("{\"a\": 2, \"b\": 4, \"c\": 16}"),
        ..Request::default()
    };
    let request4 = Request {
        method: "PUT".to_string(),
        headers: Some(vec![("Content-Type".to_string(), vec!["application/json".to_string()])]),
        ..Request::default()
    };

    assert!(find_matching_request(&request1, false, false, &sources, None, false).is_ok());
    assert!(find_matching_request(&request2, false, false, &sources, None, false).is_err());
    assert!(find_matching_request(&request3, false, false, &sources, None, false).is_ok());
    assert!(find_matching_request(&request4, false, false, &sources, None, false).is_ok());
}

#[test]
fn match_request_returns_the_closest_match() {
    let interaction1 = SynchronousHttp::new(
        Request { body: json_body("{\"a\": 1, \"b\": 2, \"c\": 3}"), ..Request::default() },
        Response { status: 200, ..Response::default() },
    );
    let interaction2 = SynchronousHttp::new(
        Request { body: json_body("{\"a\": 2, \"b\": 4, \"c\": 6}"), ..Request::default() },
        Response { status: 201, ..Response::default() },
    );
    let pact1 = pact_of(vec![interaction1]);
    let pact2 = pact_of(vec![interaction2.clone()]);

    let request1 =
        Request { body: json_body("{\"a\": 1, \"b\": 4, \"c\": 6}"), ..Request::default() };

    assert_eq!(
        find_matching_request(
            &request1,
            false,
            false,
            &sources_of(vec![pact1, pact2]),
            None,
            false
        ),
        Ok(interaction2.response)
    );
}

#[test]
fn with_auto_cors_return_200_with_an_option_request() {
    let interaction1 = SynchronousHttp::new(Request::default(), Response::default());
    let sources = sources_of(vec![pact_of(vec![interaction1])]);

    let request1 = Request { method: "OPTIONS".to_string(), ..Request::default() };

    assert!(find_matching_request(&request1, true, false, &sources, None, false).is_ok());
    assert!(find_matching_request(&request1, false, false, &sources, None, false).is_err());
}

#[test]
fn match_request_with_query_params() {
    let interaction1 = SynchronousHttp::new(
        Request {
            path: "/api/objects".to_string(),
            query: query_of("page", vec!["1"]),
            ..Request::default()
        },
        Response::default(),
    );
    let mut interaction2 = SynchronousHttp::new(
        Request {
            path: "/api/objects".to_string(),
            query: query_of("page", vec!["1"]),
            ..Request::default()
        },
        Response::default(),
    );
    interaction2.request_rules = rules_of("query", vec![("page[0]", MatchingRule::Type)]);
    let sources = sources_of(vec![pact_of(vec![interaction1, interaction2])]);

    let request1 = Request {
        path: "/api/objects".to_string(),
        query: query_of("page", vec!["3"]),
        ..Request::default()
    };

    assert!(find_matching_request(&request1, false, false, &sources, None, false).is_ok());
}

#[test]
fn match_request_with_repeated_query_params() {
    let mut interaction = SynchronousHttp::new(
        Request {
            path: "/api".to_string(),
            query: query_of("ids", vec!["1", "2", "3", "4"]),
            ..Request::default()
        },
        Response::default(),
    );
    interaction.request_rules = rules_of(
        "query",
        vec![("ids", MatchingRule::MinType(2)), ("ids[*]", MatchingRule::Type)],
    );
    let sources = sources_of(vec![pact_of(vec![interaction])]);

    let request1 = Request {
        path: "/api".to_string(),
        query: query_of("ids", vec!["3"]),
        ..Request::default()
    };
    let request2 = Request {
        path: "/api".to_string(),
        query: query_of("ids", vec!["3", "1"]),
        ..Request::default()
    };
    let request3 = Request {
        path: "/api".to_string(),
        query: query_of("ids", vec!["1", "2", "3", "4"]),
        ..Request::default()
    };
    let request4 = Request {
        path: "/api".to_string(),
        query: query_of("ids", vec!["id", "id", "id", "id"]),
        ..Request::default()
    };
    let request5 = Request {
        path: "/api".to_string(),
        query: query_of("ids", vec!["1", "2", "3", "4", "5"]),
        ..Request::default()
    };

    assert!(find_matching_request(&request1, false, false, &sources, None, false).is_err());
    assert!(find_matching_request(&request2, false, false, &sources, None, false).is_ok());
    assert!(find_matching_request(&request3, false, false, &sources, None, false).is_ok());
    assert!(find_matching_request(&request4, false, false, &sources, None, false).is_ok());
    assert!(find_matching_request(&request5, false, false, &sources, None, false).is_ok());
}

#[test]
fn match_request_filters_interactions_if_provider_state_filter_is_provided() {
    let response1 = Response { status: 201, ..Response::default() };
    let mut interaction1 =
        SynchronousHttp::new(Request::default(), Response { status: 201, ..Response::default() });
    interaction1.provider_states = states(vec!["state one"]);

    let response2 = Response { status: 202, ..Response::default() };
    let mut interaction2 =
        SynchronousHttp::new(Request::default(), Response { status: 202, ..Response::default() });
    interaction2.provider_states = states(vec!["state two"]);

    let response3 = Response { status: 203, ..Response::default() };
    let mut interaction3 =
        SynchronousHttp::new(Request::default(), Response { status: 203, ..Response::default() });
    interaction3.provider_states = states(vec!["state one", "state two", "state three"]);

    let interaction4 =
        SynchronousHttp::new(Request::default(), Response { status: 204, ..Response::default() });

    let sources =
        sources_of(vec![pact_of(vec![interaction1, interaction2, interaction3, interaction4])]);

    let request = Request::default();

    let one = regex_value("state one").unwrap();
    let two = regex_value("state two").unwrap();
    let three = regex_value("state three").unwrap();
    let four = regex_value("state four").unwrap();
    let any = regex_value("state .*").unwrap();
    assert_eq!(
        find_matching_request(&request, false, false, &sources, Some(&one), false),
        Ok(response1.clone())
    );
    assert_eq!(
        find_matching_request(&request, false, false, &sources, Some(&two), false),
        Ok(response2.clone())
    );
    assert_eq!(
        find_matching_request(&request, false, false, &sources, Some(&three), false),
        Ok(response3.clone())
    );
    assert!(find_matching_request(&request, false, false, &sources, Some(&four), false).is_err());
    assert_eq!(
        find_matching_request(&request, false, false, &sources, Some(&any), false),
        Ok(response1.clone())
    );
}

#[test]
fn match_request_filters_interactions_if_provider_state_filter_is_provided_and_empty_values_included(
) {
    let mut interaction1 =
        SynchronousHttp::new(Request::default(), Response { status: 201, ..Response::default() });
    interaction1.provider_states = states(vec!["state one"]);

    let response2 = Response { status: 202, ..Response::default() };
    let mut interaction2 =
        SynchronousHttp::new(Request::default(), Response { status: 202, ..Response::default() });
    interaction2.provider_states = states(vec![""]);

    let response3 = Response { status: 203, ..Response::default() };
    let interaction3 =
        SynchronousHttp::new(Request::default(), Response { status: 203, ..Response::default() });

    let pact1 = pact_of(vec![interaction1.clone(), interaction2, interaction3.clone()]);
    let pact2 = pact_of(vec![interaction1, interaction3]);

    let request = Request::default();
    let any = regex_value("any state").unwrap();

    assert_eq!(
        find_matching_request(&request, false, false, &sources_of(vec![pact1]), Some(&any), true),
        Ok(response2.clone())
    );
    assert_eq!(
        find_matching_request(&request, false, false, &sources_of(vec![pact2]), Some(&any), true),
        Ok(response3.clone())
    );
}

#[test]
fn handles_repeated_headers_values() {
    let interaction = SynchronousHttp::new(
        Request {
            headers: Some(vec![("TEST-X".to_string(), vec!["X, Z".to_string()])]),
            ..Request::default()
        },
        Response {
            headers: Some(vec![("TEST-X".to_string(), vec!["X, Y".to_string()])]),
            ..Response::default()
        },
    );
    let sources = sources_of(vec![pact_of(vec![interaction.clone()])]);

    let request = Request {
        headers: Some(vec![("TEST-X".to_string(), vec!["X, Y".to_string()])]),
        ..Request::default()
    };

    let result = find_matching_request(&request, false, false, &sources, None, false);
    assert_eq!(result, Ok(interaction.response));
}
