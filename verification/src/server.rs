//! The matching engine: which recorded interaction answers a request.
//!
//! Matching runs in three phases. The first gathers the candidates: the HTTP interactions
//! whose method and path accept the request and whose provider states pass the filter. A
//! path is compared exactly, unless the interaction has a rule for it: then the outside
//! matcher gives the verdict. The second phase asks the outside matcher for the mismatches
//! of each candidate and drops the candidates with a mismatch that disqualifies. The third
//! picks the survivor with the fewest mismatches, the earliest in load order among equals.
//!
//! What the outside matcher says cannot be known beforehand. The contracts say what follows
//! from it, whatever it is.

use crate::engine::{
    applied_generators, generator_kind, generators_for, has_path_rule, kind_is_safe,
    kind_of_generator, method_matches, mismatch_kind, part_is_safe, path_matches,
    path_rule_defined, render_response, renders_safely, request_mismatches, GeneratorKind,
    MismatchKind, ResponsePart,
};
use crate::model::{
    find_header, has_content_type_value, has_header_value, header_has_value, header_values, Body,
    BodyView, Headers, Interaction, Pact, ProviderState, Request, RequestView, Response,
    ResponseView, SynchronousHttp,
};
use crate::pattern::{regex_matches, NamePattern};
use crate::source::PactSource;
use crate::text::{join, joined, same_ignoring_case, to_uppercase, uppercase_of};
use pact_matching::Mismatch;
use pact_models::generators::Generator;
use vstd::prelude::*;

verus! {

/// Whether requests with this method customarily carry a payload: `POST`, `PUT` and `PATCH`.
pub open spec fn method_carries_payload(method: Seq<char>) -> bool {
    uppercase_of(method) == "POST"@ || uppercase_of(method) == "PUT"@ || uppercase_of(method)
        == "PATCH"@
}

/// Whether the method of the request is one that customarily carries a payload.
pub fn method_supports_payload(request: &Request) -> (supports: bool)
    ensures
        supports == method_carries_payload(request@.method),
{
    let method = to_uppercase(request.method.as_str());
    method.as_str().eq("POST") || method.as_str().eq("PUT") || method.as_str().eq("PATCH")
}

/// Whether the request has to be matched in its body too: it has a payload method and holds
/// a body.
pub open spec fn body_counts(request: RequestView) -> bool {
    method_carries_payload(request.method) && request.body.is_present()
}

/// Whether a mismatch of this kind rules an interaction out for the request. Method, path
/// and query always do; the body does where the body of the request counts.
pub open spec fn disqualifies(kind: MismatchKind, request: RequestView) -> bool {
    match kind {
        MismatchKind::Method => true,
        MismatchKind::Path => true,
        MismatchKind::Query => true,
        MismatchKind::Body => body_counts(request),
        _ => false,
    }
}

/// What the matcher says of one candidate: the kinds of the mismatches it found, or nothing
/// where it gave no verdict.
pub type Verdict = Option<Seq<MismatchKind>>;

/// Whether a verdict of the matcher leaves the interaction in: the matcher gave a list of
/// mismatches, and none of them disqualifies.
pub open spec fn survives(verdict: Verdict, request: RequestView) -> bool {
    match verdict {
        Some(mismatches) => forall|i: int|
            0 <= i < mismatches.len() ==> !disqualifies(#[trigger] mismatches[i], request),
        None => false,
    }
}

/// The number of mismatches in a verdict.
pub open spec fn mismatch_count(verdict: Verdict) -> nat {
    match verdict {
        Some(mismatches) => mismatches.len(),
        None => 0,
    }
}

/// Whether a verdict of the matcher leaves the interaction in.
pub fn verdict_survives(verdict: &Option<Vec<MismatchKind>>, request: &Request) -> (stays: bool)
    ensures
        stays == survives(verdict.deep_view(), request@),
{
    match verdict {
        None => false,
        Some(mismatches) => {
            let body_counts = method_supports_payload(request) && request.body.is_present();
            for i in 0..mismatches.len()
                invariant
                    *verdict == Some(*mismatches),
                    body_counts == self::body_counts(request@),
                    forall|j: int|
                        0 <= j < i ==> !disqualifies(#[trigger] mismatches@[j], request@),
            {
                let out = match mismatches[i] {
                    MismatchKind::Method => true,
                    MismatchKind::Path => true,
                    MismatchKind::Query => true,
                    MismatchKind::Body => body_counts,
                    _ => false,
                };
                if out {
                    assert(verdict.deep_view()->0 == mismatches.deep_view());
                    assert(disqualifies(mismatches.deep_view()[i as int], request@));
                    return false;
                }
            }
            assert(verdict.deep_view()->0 == mismatches.deep_view());
            assert forall|j: int| 0 <= j < mismatches.deep_view().len() implies !disqualifies(
                #[trigger] mismatches.deep_view()[j],
                request@,
            ) by {
                assert(mismatches.deep_view()[j] == mismatches@[j]);
            }
            true
        },
    }
}

/// Whether candidate `k` is the one to answer with: it survives, no survivor has fewer
/// mismatches, and no earlier survivor has as few.
pub open spec fn is_best(verdicts: Seq<Verdict>, request: RequestView, k: int) -> bool {
    &&& 0 <= k < verdicts.len()
    &&& survives(verdicts[k], request)
    &&& forall|j: int|
        0 <= j < verdicts.len() && survives(#[trigger] verdicts[j], request) ==> mismatch_count(
            verdicts[k],
        ) <= mismatch_count(verdicts[j])
    &&& forall|j: int|
        0 <= j < k && survives(#[trigger] verdicts[j], request) ==> mismatch_count(verdicts[k])
            < mismatch_count(verdicts[j])
}

/// The verdicts that leave their interaction in.
pub open spec fn survivors(verdicts: Seq<Verdict>, request: RequestView) -> Seq<Verdict> {
    verdicts.filter(|verdict: Verdict| survives(verdict, request))
}

/// The candidate that was picked, and whether it had rivals.
#[derive(Clone, Copy, Debug, PartialEq, Eq)]
pub struct Choice {
    /// The position of the candidate among the candidates.
    pub index: usize,
    /// Whether more than one candidate survived.
    pub contested: bool,
}

/// Picks the candidate to answer with from the verdicts of the matcher, one for each
/// candidate in load order: the survivor with the fewest mismatches, the earliest of them
/// among equals. `None` where no candidate survives.
pub fn choose_best(request: &Request, verdicts: &Vec<Option<Vec<MismatchKind>>>) -> (choice:
    Option<Choice>)
    ensures
        match choice {
            Some(choice) => is_best(verdicts.deep_view(), request@, choice.index as int)
                && choice.contested == (survivors(verdicts.deep_view(), request@).len() > 1),
            None => forall|j: int|
                0 <= j < verdicts.deep_view().len() ==> !survives(
                    #[trigger] verdicts.deep_view()[j],
                    request@,
                ),
        },
{
    let ghost all = verdicts.deep_view();
    let mut best: Option<usize> = None;
    let mut count: usize = 0;
    for i in 0..verdicts.len()
        invariant
            all == verdicts.deep_view(),
            count == survivors(all.take(i as int), request@).len(),
            count <= i,
            match best {
                Some(k) => k < i && is_best(all.take(i as int), request@, k as int),
                None => forall|j: int| 0 <= j < i ==> !survives(#[trigger] all[j], request@),
            },
    {
        let ghost seen = all.take(i as int);
        let ghost now = all.take(i + 1);
        proof {
            assert(now =~= seen.push(all[i as int]));
            seen.lemma_filter_push(all[i as int], |verdict: Verdict| survives(verdict, request@));
            assert(all[i as int] == verdicts@[i as int].deep_view());
        }
        if verdict_survives(&verdicts[i], request) {
            count = count + 1;
            let fewer = match best {
                None => true,
                Some(k) => match (&verdicts[i], &verdicts[k]) {
                    (Some(new), Some(old)) => {
                        assert(all[k as int] == verdicts@[k as int].deep_view());
                        assert(seen[k as int] == all[k as int]);
                        new.len() < old.len()
                    },
                    _ => false,
                },
            };
            if fewer {
                best = Some(i);
            }
        }
        proof {
            if let Some(k) = best {
                assert forall|j: int|
                    0 <= j < now.len() && survives(#[trigger] now[j], request@) implies mismatch_count(
                    now[k as int],
                ) <= mismatch_count(now[j]) by {
                    if j < i {
                        assert(seen[j] == now[j]);
                    }
                }
                assert forall|j: int|
                    0 <= j < k && survives(#[trigger] now[j], request@) implies mismatch_count(
                    now[k as int],
                ) < mismatch_count(now[j]) by {
                    assert(seen[j] == now[j]);
                }
            }
        }
    }
    assert(all.take(all.len() as int) =~= all);
    match best {
        Some(index) => Some(Choice { index, contested: count > 1 }),
        None => None,
    }
}

/// Whether a provider state passes a filter: its name matches the pattern, or it has no name
/// and unnamed states are let through.
pub open spec fn state_fits(state: ProviderState, pattern: Seq<char>, empty_ok: bool) -> bool {
    (empty_ok && state.name@.len() == 0) || regex_matches(pattern, state.name@)
}

/// Whether the provider states of an interaction pass the filter. Without a filter they do.
/// With one, they do where one of the states passes it, and, where interactions without
/// states are let through, where there is no state at all.
pub open spec fn state_accepts(
    states: Seq<ProviderState>,
    filter: Option<Seq<char>>,
    empty_ok: bool,
) -> bool {
    match filter {
        None => true,
        Some(pattern) => (empty_ok && states.len() == 0) || exists|k: int|
            0 <= k < states.len() && state_fits(#[trigger] states[k], pattern, empty_ok),
    }
}

/// Whether the provider states of an interaction pass the filter.
pub fn passes_state_filter(
    states: &Vec<ProviderState>,
    filter: Option<&NamePattern>,
    empty_ok: bool,
) -> (kept: bool)
    ensures
        kept == state_accepts(states@, filter.deep_view(), empty_ok),
{
    match filter {
        None => true,
        Some(pattern) => {
            if empty_ok && states.len() == 0 {
                return true;
            }
            for k in 0..states.len()
                invariant
                    filter == Some(pattern),
                    forall|j: int| 0 <= j < k ==> !state_fits(#[trigger] states@[j], pattern@, empty_ok),
            {
                if (empty_ok && states[k].name.as_str().is_empty()) || pattern.is_match(
                    states[k].name.as_str(),
                ) {
                    assert(state_fits(states@[k as int], pattern@, empty_ok));
                    return true;
                }
            }
            false
        },
    }
}

/// Whether a verdict on the path of a request fits an interaction. Where the rules of the
/// interaction define no matcher for the path, the path is accepted exactly where it is the
/// recorded path. Where they define one, the outside matcher decides, and any verdict fits.
pub open spec fn path_verdict_fits(
    interaction: SynchronousHttp,
    request: RequestView,
    accepted: bool,
) -> bool {
    !path_rule_defined(interaction.request_rules) ==> accepted == (interaction.request@.path
        == request.path)
}

/// Whether an interaction is a candidate for a request, given the verdict on the path: its
/// method accepts that of the request, the path is accepted, and its provider states pass
/// the filter.
pub open spec fn is_candidate(
    interaction: SynchronousHttp,
    request: RequestView,
    filter: Option<Seq<char>>,
    empty_ok: bool,
    path_accepted: bool,
) -> bool {
    &&& same_ignoring_case(interaction.request@.method, request.method)
    &&& path_accepted
    &&& state_accepts(interaction.provider_states@, filter, empty_ok)
}

/// Whether an interaction can be a candidate for a request whatever the outside matcher
/// says: method and provider states fit, and the path is the recorded one or under a rule.
pub open spec fn may_be_candidate(
    interaction: SynchronousHttp,
    request: RequestView,
    filter: Option<Seq<char>>,
    empty_ok: bool,
) -> bool {
    &&& same_ignoring_case(interaction.request@.method, request.method)
    &&& state_accepts(interaction.provider_states@, filter, empty_ok)
    &&& (path_rule_defined(interaction.request_rules) || interaction.request@.path
        == request.path)
}

/// Compares the path of a request with the path that an interaction records: by the outside
/// matcher where the rules of the interaction define a matcher for the path, else exactly.
pub fn path_verdict(interaction: &SynchronousHttp, request: &Request) -> (accepted: bool)
    ensures
        path_verdict_fits(*interaction, request@, accepted),
{
    if has_path_rule(&interaction.request_rules) {
        path_matches(
            interaction.request.path.as_str(),
            request.path.as_str(),
            &interaction.request_rules,
        )
    } else {
        interaction.request.path == request.path
    }
}

/// Whether an interaction is a candidate for a request, with the verdict on its path.
fn judged(
    interaction: &SynchronousHttp,
    request: &Request,
    filter: Option<&NamePattern>,
    empty_ok: bool,
) -> (result: (bool, Ghost<bool>))
    ensures
        path_verdict_fits(*interaction, request@, result.1@),
        result.0 == is_candidate(*interaction, request@, filter.deep_view(), empty_ok, result.1@),
{
    if method_matches(interaction.request.method.as_str(), request.method.as_str()) {
        let path_accepted = path_verdict(interaction, request);
        let accepted = path_accepted && passes_state_filter(
            &interaction.provider_states,
            filter,
            empty_ok,
        );
        (accepted, Ghost(path_accepted))
    } else {
        (false, Ghost(interaction.request@.path == request@.path))
    }
}

/// Whether an interaction is a candidate for a request.
pub fn accepts(
    interaction: &SynchronousHttp,
    request: &Request,
    filter: Option<&NamePattern>,
    empty_ok: bool,
) -> (accepted: bool)
    ensures
        exists|path_accepted: bool|
            path_verdict_fits(*interaction, request@, path_accepted) && accepted == is_candidate(
                *interaction,
                request@,
                filter.deep_view(),
                empty_ok,
                path_accepted,
            ),
{
    let result = judged(interaction, request, filter, empty_ok);
    assert(path_verdict_fits(*interaction, request@, result.1@) && result.0 == is_candidate(
        *interaction,
        request@,
        filter.deep_view(),
        empty_ok,
        result.1@,
    ));
    result.0
}

/// The HTTP interactions of a pact, in the order of the pact.
pub open spec fn http_of(pact: Pact) -> Seq<SynchronousHttp> {
    pact.interactions@.filter_map(|interaction: Interaction| interaction.http())
}

/// The HTTP interactions of all the pacts, in load order: pact after pact, and within a pact
/// in its own order.
pub open spec fn http_interactions(sources: Seq<(Pact, PactSource)>) -> Seq<SynchronousHttp> {
    sources.map_values(|entry: (Pact, PactSource)| http_of(entry.0)).flatten()
}

/// Whether a list of verdicts on the path, one for each interaction, fits the interactions.
pub open spec fn paths_fit(
    all: Seq<SynchronousHttp>,
    request: RequestView,
    paths: Seq<bool>,
) -> bool {
    &&& paths.len() == all.len()
    &&& forall|k: int|
        0 <= k < all.len() ==> path_verdict_fits(all[k], request, #[trigger] paths[k])
}

/// The candidates for a request among the interactions, in their order, given the verdict
/// on the path for each of them.
pub open spec fn candidates(
    all: Seq<SynchronousHttp>,
    paths: Seq<bool>,
    request: RequestView,
    filter: Option<Seq<char>>,
    empty_ok: bool,
) -> Seq<SynchronousHttp>
    decreases all.len(),
{
    if all.len() == 0 || paths.len() != all.len() {
        Seq::empty()
    } else {
        candidates(all.drop_last(), paths.drop_last(), request, filter, empty_ok) + if is_candidate(
            all.last(),
            request,
            filter,
            empty_ok,
            paths.last(),
        ) {
            seq![all.last()]
        } else {
            Seq::empty()
        }
    }
}

/// The interactions that a list of references points to.
pub open spec fn pointed(found: Seq<&SynchronousHttp>) -> Seq<SynchronousHttp> {
    found.map_values(|interaction: &SynchronousHttp| *interaction)
}

/// Gathers the candidates, and keeps the verdicts on the path that it was given.
fn gather<'a>(
    request: &Request,
    sources: &'a Vec<(Pact, PactSource)>,
    filter: Option<&NamePattern>,
    empty_ok: bool,
) -> (result: (Vec<&'a SynchronousHttp>, Ghost<Seq<bool>>))
    ensures
        paths_fit(http_interactions(sources@), request@, result.1@),
        pointed(result.0@) == candidates(
            http_interactions(sources@),
            result.1@,
            request@,
            filter.deep_view(),
            empty_ok,
        ),
{
    let mut found: Vec<&SynchronousHttp> = Vec::new();
    let ghost mut paths: Seq<bool> = Seq::empty();
    assert(pointed(found@) =~= Seq::empty());
    assert(http_interactions(sources@.take(0)) =~= Seq::empty());
    for p in 0..sources.len()
        invariant
            paths_fit(http_interactions(sources@.take(p as int)), request@, paths),
            pointed(found@) == candidates(
                http_interactions(sources@.take(p as int)),
                paths,
                request@,
                filter.deep_view(),
                empty_ok,
            ),
    {
        let ghost pick = |interaction: Interaction| interaction.http();
        let ghost part = |entry: (Pact, PactSource)| http_of(entry.0);
        let ghost before = http_interactions(sources@.take(p as int));
        let interactions = &sources[p].0.interactions;
        assert(before + interactions@.take(0).filter_map(pick) =~= before);
        for k in 0..interactions.len()
            invariant
                pick == (|interaction: Interaction| interaction.http()),
                paths_fit(before + interactions@.take(k as int).filter_map(pick), request@, paths),
                pointed(found@) == candidates(
                    before + interactions@.take(k as int).filter_map(pick),
                    paths,
                    request@,
                    filter.deep_view(),
                    empty_ok,
                ),
        {
            let ghost seen = before + interactions@.take(k as int).filter_map(pick);
            let ghost held = found@;
            let ghost given = paths;
            proof {
                interactions@.lemma_filter_map_take_succ(pick, k as int);
            }
            match &interactions[k] {
                Interaction::Http(http) => {
                    let result = judged(http, request, filter, empty_ok);
                    if result.0 {
                        found.push(http);
                    }
                    proof {
                        let now = before + interactions@.take(k + 1).filter_map(pick);
                        paths = given.push(result.1@);
                        assert(now =~= seen.push(*http));
                        assert(now.drop_last() =~= seen);
                        assert(paths.drop_last() =~= given);
                        if result.0 {
                            assert(pointed(found@) =~= pointed(held).push(*http));
                        }
                        assert(pointed(found@) =~= candidates(
                            now,
                            paths,
                            request@,
                            filter.deep_view(),
                            empty_ok,
                        ));
                    }
                },
                Interaction::Message(_) => {
                    assert(before + interactions@.take(k + 1).filter_map(pick) =~= seen);
                },
            }
        }
        proof {
            let all = sources@.take(p + 1);
            let seen = sources@.take(p as int);
            assert(interactions@.take(interactions@.len() as int) =~= interactions@);
            assert(all.map_values(part) =~= seen.map_values(part).push(http_of(sources@[p as int].0)));
            seen.map_values(part).lemma_flatten_push(http_of(sources@[p as int].0));
        }
    }
    assert(sources@.take(sources@.len() as int) =~= sources@);
    (found, Ghost(paths))
}

/// Gathers the candidates for a request from all the pacts, in load order. The path of an
/// interaction without a path rule is compared exactly; under a rule the outside matcher
/// gives the verdict, whatever it is.
pub fn gather_candidates<'a>(
    request: &Request,
    sources: &'a Vec<(Pact, PactSource)>,
    filter: Option<&NamePattern>,
    empty_ok: bool,
) -> (found: Vec<&'a SynchronousHttp>)
    ensures
        exists|paths: Seq<bool>|
            paths_fit(http_interactions(sources@), request@, paths) && pointed(found@)
                == candidates(
                http_interactions(sources@),
                paths,
                request@,
                filter.deep_view(),
                empty_ok,
            ),
{
    let result = gather(request, sources, filter, empty_ok);
    assert(paths_fit(http_interactions(sources@), request@, result.1@) && pointed(result.0@)
        == candidates(
        http_interactions(sources@),
        result.1@,
        request@,
        filter.deep_view(),
        empty_ok,
    ));
    result.0
}

/// The request that no interaction answers.
#[derive(Clone, Debug, PartialEq, Eq)]
pub struct NoMatch {
    /// The path of the request.
    pub path: String,
}

impl NoMatch {
    /// What to tell a reader of the log.
    pub fn message(&self) -> (text: String)
        ensures
            text@ == "No matching request found for path "@ + self.path@,
    {
        let mut text = "No matching request found for path ".to_owned();
        text.append(self.path.as_str());
        text
    }
}

/// Whether a request without a matching interaction is answered as a CORS preflight: the
/// server was asked to, and the method is `OPTIONS`.
pub open spec fn allows_preflight(request: RequestView, auto_cors: bool) -> bool {
    auto_cors && uppercase_of(request.method) == "OPTIONS"@
}

/// The origin that a preflight reply allows: every origin, or, where the server was asked
/// to go by the referer, the values of the `Referer` header of the request joined by `, `.
pub open spec fn cors_origin(request: RequestView, cors_referer: bool) -> Seq<char> {
    if cors_referer {
        match request.headers {
            Some(headers) => match header_values(headers, "referer"@) {
                Some(values) => joined(values, ", "@),
                None => "*"@,
            },
            None => "*"@,
        }
    } else {
        "*"@
    }
}

/// The reply to a CORS preflight that allows the given origin.
pub open spec fn preflight(origin: Seq<char>) -> ResponseView {
    ResponseView {
        status: 200,
        headers: Some(
            seq![
                ("Access-Control-Allow-Headers"@, seq!["*"@]),
                (
                    "Access-Control-Allow-Methods"@,
                    seq!["GET, HEAD, POST, PUT, DELETE, CONNECT, OPTIONS, TRACE, PATCH"@],
                ),
                ("Access-Control-Allow-Origin"@, seq![origin]),
            ],
        ),
        body: BodyView::Missing,
    }
}

/// What a request gets where no interaction answers it: the preflight reply where that is
/// allowed, else the failure that names the path.
pub open spec fn fallback(request: RequestView, auto_cors: bool, cors_referer: bool) -> Result<
    ResponseView,
    Seq<char>,
> {
    if allows_preflight(request, auto_cors) {
        Ok(preflight(cors_origin(request, cors_referer)))
    } else {
        Err(request.path)
    }
}

/// The mathematical content of a reply.
pub open spec fn reply_view(reply: Result<Response, NoMatch>) -> Result<ResponseView, Seq<char>> {
    match reply {
        Ok(response) => Ok(response@),
        Err(failure) => Err(failure.path@),
    }
}

/// The origin that a preflight reply to the request allows.
pub fn allowed_origin(request: &Request, cors_referer: bool) -> (origin: String)
    ensures
        origin@ == cors_origin(request@, cors_referer),
{
    if cors_referer {
        if let Some(headers) = &request.headers {
            if let Some(values) = find_header(headers, "referer") {
                return join(values, ", ");
            }
        }
    }
    "*".to_owned()
}

/// Answers a request that no interaction answers.
pub fn fallback_response(request: &Request, auto_cors: bool, cors_referer: bool) -> (reply: Result<
    Response,
    NoMatch,
>)
    ensures
        reply_view(reply) == fallback(request@, auto_cors, cors_referer),
{
    let method = to_uppercase(request.method.as_str());
    if auto_cors && method.as_str().eq("OPTIONS") {
        let origin = allowed_origin(request, cors_referer);
        let mut headers: Headers = Vec::new();
        headers.push(("Access-Control-Allow-Headers".to_owned(), vec!["*".to_owned()]));
        headers.push(
            (
                "Access-Control-Allow-Methods".to_owned(),
                vec!["GET, HEAD, POST, PUT, DELETE, CONNECT, OPTIONS, TRACE, PATCH".to_owned()],
            ),
        );
        headers.push(("Access-Control-Allow-Origin".to_owned(), vec![origin]));
        let response = Response { status: 200, headers: Some(headers), body: Body::Missing };
        proof {
            let wanted = preflight(cors_origin(request@, cors_referer)).headers->0;
            assert(headers@[0].1.deep_view() =~= wanted[0].1);
            assert(headers@[1].1.deep_view() =~= wanted[1].1);
            assert(headers@[2].1.deep_view() =~= wanted[2].1);
            assert(headers.deep_view() =~= wanted);
        }
        Ok(response)
    } else {
        Err(NoMatch { path: request.path.clone() })
    }
}

/// Whether the outside matcher can be asked about a request. It cannot where the request
/// holds an `accept` or a `content-type` header without a value.
pub open spec fn can_be_scored(request: RequestView) -> bool {
    header_has_value(request.headers, "content-type"@) && header_has_value(
        request.headers,
        "accept"@,
    )
}

/// The kinds of the mismatches that the outside matcher listed, in its order.
fn kinds_of(mismatches: &Vec<Mismatch>) -> (kinds: Vec<MismatchKind>)
    ensures
        kinds@.len() == mismatches@.len(),
{
    let mut kinds: Vec<MismatchKind> = Vec::new();
    for i in 0..mismatches.len()
        invariant
            kinds@.len() == i,
    {
        kinds.push(mismatch_kind(&mismatches[i]));
    }
    kinds
}

/// Asks the outside matcher for its verdict on each candidate, in the order of the
/// candidates. The matcher is asked only where it can be: for a request that cannot be
/// scored no candidate gets a verdict.
fn score_candidates(request: &Request, found: &Vec<&SynchronousHttp>) -> (verdicts: Vec<
    Option<Vec<MismatchKind>>,
>)
    ensures
        verdicts@.len() == found@.len(),
        !can_be_scored(request@) ==> forall|i: int|
            0 <= i < verdicts@.len() ==> #[trigger] verdicts@[i] is None,
{
    let usable = has_header_value(&request.headers, "content-type") && has_header_value(
        &request.headers,
        "accept",
    );
    let mut verdicts: Vec<Option<Vec<MismatchKind>>> = Vec::new();
    for i in 0..found.len()
        invariant
            verdicts@.len() == i,
            usable == can_be_scored(request@),
            !usable ==> forall|j: int| 0 <= j < i ==> #[trigger] verdicts@[j] is None,
    {
        let verdict = if usable {
            match request_mismatches(found[i], request) {
                Some(mismatches) => Some(kinds_of(&mismatches)),
                None => None,
            }
        } else {
            None
        };
        verdicts.push(verdict);
    }
    verdicts
}

/// The interaction that was selected for a request, and whether it had rivals.
#[derive(Clone, Copy, Debug)]
pub struct Selection<'a> {
    pub interaction: &'a SynchronousHttp,
    /// Whether more than one candidate survived.
    pub contested: bool,
}

/// The mathematical content of a selection.
pub struct Picked {
    pub interaction: SynchronousHttp,
    pub contested: bool,
}

/// The mathematical content of what was selected, if anything.
pub open spec fn picked(chosen: Option<Selection>) -> Option<Picked> {
    match chosen {
        Some(selection) => Some(
            Picked { interaction: *selection.interaction, contested: selection.contested },
        ),
        None => None,
    }
}

/// Whether `chosen` is the selection that a list of verdicts leads to. The list holds one
/// verdict for each candidate, in the order of the candidates, and none at all for a request
/// that cannot be scored. The selection is the candidate that is the best one by the
/// verdicts, contested where more than one verdict leaves its candidate in, and there is
/// none where no verdict does.
pub open spec fn is_selection(
    found: Seq<SynchronousHttp>,
    request: RequestView,
    verdicts: Seq<Verdict>,
    chosen: Option<Picked>,
) -> bool {
    &&& verdicts.len() == found.len()
    &&& !can_be_scored(request) ==> forall|j: int|
        0 <= j < verdicts.len() ==> #[trigger] verdicts[j] is None
    &&& match chosen {
        Some(selection) => {
            &&& exists|k: int|
                is_best(verdicts, request, k) && #[trigger] found[k] == selection.interaction
            &&& selection.contested == (survivors(verdicts, request).len() > 1)
        },
        None => forall|j: int|
            0 <= j < verdicts.len() ==> !survives(#[trigger] verdicts[j], request),
    }
}

/// What the outside matcher said in the course of one search: its verdict on the path for
/// each HTTP interaction, and its list of mismatches for each candidate.
pub struct Said {
    pub paths: Seq<bool>,
    pub verdicts: Seq<Verdict>,
}

/// Whether `chosen` is the outcome of the search for a request among the pacts, given what
/// the outside matcher said: the verdicts on the path fit the interactions, and `chosen`
/// is the selection that the verdicts on the candidates lead to.
pub open spec fn is_search(
    sources: Seq<(Pact, PactSource)>,
    request: RequestView,
    filter: Option<Seq<char>>,
    empty_ok: bool,
    said: Said,
    chosen: Option<Picked>,
) -> bool {
    &&& paths_fit(http_interactions(sources), request, said.paths)
    &&& is_selection(
        candidates(http_interactions(sources), said.paths, request, filter, empty_ok),
        request,
        said.verdicts,
        chosen,
    )
}

/// Selects the interaction that answers a request: gathers the candidates, asks the outside
/// matcher about each, and picks the best of the survivors.
///
/// The matcher decides on paths under a rule and on which candidates survive. Whatever it
/// says, the selection is the one that its verdicts lead to: the survivor with the fewest
/// mismatches, the earliest of them among equals, and none where no candidate survives.
pub fn select_interaction<'a>(
    request: &Request,
    sources: &'a Vec<(Pact, PactSource)>,
    filter: Option<&NamePattern>,
    empty_ok: bool,
) -> (chosen: Option<Selection<'a>>)
    ensures
        exists|said: Said|
            is_search(sources@, request@, filter.deep_view(), empty_ok, said, picked(chosen)),
{
    let gathered = gather(request, sources, filter, empty_ok);
    let found = gathered.0;
    let verdicts = score_candidates(request, &found);
    let choice = choose_best(request, &verdicts);
    let ghost said = Said { paths: gathered.1@, verdicts: verdicts.deep_view() };
    proof {
        assert forall|j: int| 0 <= j < said.verdicts.len() && !can_be_scored(
            request@,
        ) implies #[trigger] said.verdicts[j] is None by {
            assert(said.verdicts[j] == verdicts@[j].deep_view());
        }
    }
    match choice {
        Some(choice) => {
            let interaction = found[choice.index];
            let chosen = Some(Selection { interaction, contested: choice.contested });
            proof {
                assert(pointed(found@)[choice.index as int] == *interaction);
                assert(is_search(
                    sources@,
                    request@,
                    filter.deep_view(),
                    empty_ok,
                    said,
                    picked(chosen),
                ));
            }
            chosen
        },
        None => {
            assert(is_search(sources@, request@, filter.deep_view(), empty_ok, said, None));
            None
        },
    }
}

/// Whether all the generators for a part of the response of an interaction can be applied.
fn part_can_render(interaction: &SynchronousHttp, part: ResponsePart) -> (safe: bool)
    ensures
        safe == part_is_safe(*interaction, part),
{
    let found = generators_for(interaction, part);
    for i in 0..found.len()
        invariant
            found@.to_set() == applied_generators(
                interaction.response_generators,
                interaction.response_rules,
                part,
            ),
            forall|j: int|
                0 <= j < i ==> kind_is_safe(generator_kind(#[trigger] found@[j]), part),
    {
        let safe = match kind_of_generator(&found[i]) {
            GeneratorKind::RandomInt(min, max) => match part {
                ResponsePart::Status => 0 <= min && min <= max && max <= 65534,
                _ => min <= max && min < i32::MAX,
            },
            GeneratorKind::ArrayContains => match part {
                ResponsePart::Body => false,
                _ => true,
            },
            GeneratorKind::Other => true,
        };
        if !safe {
            assert(found@.contains(found@[i as int]));
            assert(found@.to_set().contains(found@[i as int]));
            return false;
        }
    }
    assert forall|generator: Generator| #[trigger]
        applied_generators(
            interaction.response_generators,
            interaction.response_rules,
            part,
        ).contains(generator) implies kind_is_safe(generator_kind(generator), part) by {
        assert(found@.to_set().contains(generator));
        assert(found@.contains(generator));
        let j = choose|j: int| 0 <= j < found@.len() && found@[j] == generator;
        assert(kind_is_safe(generator_kind(found@[j]), part));
    }
    true
}

/// Whether the response of an interaction can be handed to the generator engine.
pub fn can_render(interaction: &SynchronousHttp) -> (safe: bool)
    ensures
        safe == renders_safely(*interaction),
{
    has_content_type_value(&interaction.response.headers) && part_can_render(
        interaction,
        ResponsePart::Status,
    ) && part_can_render(interaction, ResponsePart::Headers) && part_can_render(
        interaction,
        ResponsePart::Body,
    )
}

/// Renders the response of an interaction: the outside engine applies the generators to the
/// recorded response. Where the engine cannot take the recorded response or gives none, the
/// recorded response is sent as it is.
pub fn rendered_response(interaction: &SynchronousHttp) -> (response: Response)
    ensures
        !renders_safely(*interaction) ==> response@ == interaction.response@,
{
    if can_render(interaction) {
        match render_response(interaction) {
            Some(response) => response,
            None => interaction.response.clone(),
        }
    } else {
        interaction.response.clone()
    }
}

/// The reply to a request, given the rendered response of the interaction that was selected
/// for it, if one was: that response, else the fallback.
pub fn answer(rendered: Option<Response>, request: &Request, auto_cors: bool, cors_referer: bool) -> (reply:
    Result<Response, NoMatch>)
    ensures
        match rendered {
            Some(response) => reply == Ok::<Response, NoMatch>(response),
            None => reply_view(reply) == fallback(request@, auto_cors, cors_referer),
        },
{
    match rendered {
        Some(response) => Ok(response),
        None => fallback_response(request, auto_cors, cors_referer),
    }
}

/// The response found for a request, and whether the interaction behind it had rivals.
#[derive(Clone, Debug, PartialEq, Eq)]
pub struct Reply {
    pub response: Response,
    /// Whether more than one candidate survived, which is worth a warning.
    pub contested: bool,
}

/// The mathematical content of what was found.
pub open spec fn found_view(reply: Result<Reply, NoMatch>) -> Result<ResponseView, Seq<char>> {
    match reply {
        Ok(reply) => Ok(reply.response@),
        Err(failure) => Err(failure.path@),
    }
}

/// Whether a reply is the one that the outcome of a search calls for. For a selection it is
/// a response, contested as the selection is, and the recorded response itself where that
/// cannot be rendered. Without a selection it is the fallback, and not contested.
pub open spec fn follows(
    chosen: Option<Picked>,
    reply: Result<Reply, NoMatch>,
    request: RequestView,
    auto_cors: bool,
    cors_referer: bool,
) -> bool {
    match chosen {
        Some(selection) => {
            &&& reply is Ok
            &&& reply->Ok_0.contested == selection.contested
            &&& !renders_safely(selection.interaction) ==> reply->Ok_0.response@
                == selection.interaction.response@
        },
        None => {
            &&& found_view(reply) == fallback(request, auto_cors, cors_referer)
            &&& reply is Ok ==> !reply->Ok_0.contested
        },
    }
}

/// Whether no interaction of the pacts can be a candidate for a request, whatever the
/// outside matcher says.
pub open spec fn none_may_match(
    sources: Seq<(Pact, PactSource)>,
    request: RequestView,
    filter: Option<Seq<char>>,
    empty_ok: bool,
) -> bool {
    forall|k: int|
        0 <= k < http_interactions(sources).len() ==> !may_be_candidate(
            #[trigger] http_interactions(sources)[k],
            request,
            filter,
            empty_ok,
        )
}

/// Finds the response to a request among the interactions of all the pacts.
///
/// The outside matcher decides on paths under a rule and on which candidates survive, and
/// the outside generators on what a response looks like once rendered. Whatever they say,
/// the reply is the one that the outcome of the search calls for. Where no interaction can
/// be a candidate, that is the fallback.
pub fn find_matching_request(
    request: &Request,
    auto_cors: bool,
    cors_referer: bool,
    sources: &Vec<(Pact, PactSource)>,
    provider_state: Option<&NamePattern>,
    empty_provider_states: bool,
) -> (reply: Result<Reply, NoMatch>)
    ensures
        exists|said: Said, chosen: Option<Picked>|
            is_search(
                sources@,
                request@,
                provider_state.deep_view(),
                empty_provider_states,
                said,
                chosen,
            ) && follows(chosen, reply, request@, auto_cors, cors_referer),
        none_may_match(sources@, request@, provider_state.deep_view(), empty_provider_states)
            ==> found_view(reply) == fallback(request@, auto_cors, cors_referer) && (reply is Ok
            ==> !reply->Ok_0.contested),
        reply is Err ==> found_view(reply) == fallback(request@, auto_cors, cors_referer),
{
    let chosen = select_interaction(request, sources, provider_state, empty_provider_states);
    let ghost said = choose|said: Said|
        is_search(
            sources@,
            request@,
            provider_state.deep_view(),
            empty_provider_states,
            said,
            picked(chosen),
        );
    proof {
        lemma_no_candidate_without_acceptance(
            http_interactions(sources@),
            said.paths,
            request@,
            provider_state.deep_view(),
            empty_provider_states,
        );
    }
    let reply = match chosen {
        Some(selection) => Ok(
            Reply {
                response: rendered_response(selection.interaction),
                contested: selection.contested,
            },
        ),
        None => match fallback_response(request, auto_cors, cors_referer) {
            Ok(response) => Ok(Reply { response, contested: false }),
            Err(failure) => Err(failure),
        },
    };
    assert(is_search(
        sources@,
        request@,
        provider_state.deep_view(),
        empty_provider_states,
        said,
        picked(chosen),
    ) && follows(picked(chosen), reply, request@, auto_cors, cors_referer));
    reply
}

/// The response that tells a client that nothing matched: status 404 without a body. Where
/// the server answers CORS preflights, it allows every origin.
pub open spec fn not_found(auto_cors: bool) -> ResponseView {
    ResponseView {
        status: 404,
        headers: if auto_cors {
            Some(seq![("Access-Control-Allow-Origin"@, seq!["*"@])])
        } else {
            None
        },
        body: BodyView::Missing,
    }
}

/// The response that goes out for a reply: the response found, or the one for nothing found.
pub open spec fn response_for(reply: Result<ResponseView, Seq<char>>, auto_cors: bool) -> ResponseView {
    match reply {
        Ok(response) => response,
        Err(_) => not_found(auto_cors),
    }
}

/// Turns a reply into the response that goes out.
pub fn response_or_not_found(reply: Result<Response, NoMatch>, auto_cors: bool) -> (response:
    Response)
    ensures
        response@ == response_for(reply_view(reply), auto_cors),
        reply is Ok ==> response == reply->Ok_0,
{
    match reply {
        Ok(response) => response,
        Err(_) => {
            let headers = if auto_cors {
                let mut headers: Headers = Vec::new();
                headers.push(("Access-Control-Allow-Origin".to_owned(), vec!["*".to_owned()]));
                proof {
                    let wanted = not_found(true).headers->0;
                    assert(headers@[0].1.deep_view() =~= wanted[0].1);
                    assert(headers.deep_view() =~= wanted);
                }
                Some(headers)
            } else {
                None
            };
            Response { status: 404, headers, body: Body::Missing }
        },
    }
}

/// Whether what goes out for a request is what the outcome of a search calls for. For a
/// selection it is contested as the selection is, and the recorded response itself where
/// that cannot be rendered. Without a selection it is the fallback's response, status 404
/// where the fallback fails, and not contested.
pub open spec fn handled(
    chosen: Option<Picked>,
    reply: Reply,
    request: RequestView,
    auto_cors: bool,
    cors_referer: bool,
) -> bool {
    match chosen {
        Some(selection) => {
            &&& reply.contested == selection.contested
            &&& !renders_safely(selection.interaction) ==> reply.response@
                == selection.interaction.response@
        },
        None => {
            &&& reply.response@ == response_for(
                fallback(request, auto_cors, cors_referer),
                auto_cors,
            )
            &&& !reply.contested
        },
    }
}

/// Answers a request: the response of the interaction that matches it best, the preflight
/// reply, or status 404.
///
/// As for `find_matching_request`, the outside matcher and generators have their say.
/// Whatever it is, what goes out is what the outcome of the search calls for, and where no
/// interaction can be a candidate that is exactly the fallback's response.
pub fn handle_request(
    request: &Request,
    auto_cors: bool,
    cors_referrer: bool,
    sources: &Vec<(Pact, PactSource)>,
    provider_state: Option<&NamePattern>,
    empty_provider_states: bool,
) -> (reply: Reply)
    ensures
        exists|said: Said, chosen: Option<Picked>|
            is_search(
                sources@,
                request@,
                provider_state.deep_view(),
                empty_provider_states,
                said,
                chosen,
            ) && handled(chosen, reply, request@, auto_cors, cors_referrer),
        none_may_match(sources@, request@, provider_state.deep_view(), empty_provider_states)
            ==> reply.response@ == response_for(
            fallback(request@, auto_cors, cors_referrer),
            auto_cors,
        ) && !reply.contested,
{
    let found = find_matching_request(
        request,
        auto_cors,
        cors_referrer,
        sources,
        provider_state,
        empty_provider_states,
    );
    let ghost witness = choose|said: Said, chosen: Option<Picked>|
        is_search(
            sources@,
            request@,
            provider_state.deep_view(),
            empty_provider_states,
            said,
            chosen,
        ) && follows(chosen, found, request@, auto_cors, cors_referrer);
    let reply = match found {
        Ok(reply) => reply,
        Err(failure) => Reply {
            response: response_or_not_found(Err(failure), auto_cors),
            contested: false,
        },
    };
    assert(is_search(
        sources@,
        request@,
        provider_state.deep_view(),
        empty_provider_states,
        witness.0,
        witness.1,
    ) && handled(witness.1, reply, request@, auto_cors, cors_referrer));
    reply
}

/// The warning for a choice that was contested.
pub fn contested_warning(method: &str, path: &str) -> (text: String)
    ensures
        text@ == "Found more than one pact request for method "@ + method@ + " and path '"@
            + path@ + "', using the first one with the least number of mismatches"@,
{
    let mut text = "Found more than one pact request for method ".to_owned();
    text.append(method);
    text.append(" and path '");
    text.append(path);
    text.append("', using the first one with the least number of mismatches");
    text
}

/// At most one candidate is the best one: the choice is determined by the verdicts.
pub proof fn lemma_best_is_unique(
    verdicts: Seq<Verdict>,
    request: RequestView,
    a: int,
    b: int,
)
    requires
        is_best(verdicts, request, a),
        is_best(verdicts, request, b),
    ensures
        a == b,
{
    if a < b {
        assert(survives(verdicts[a], request));
    } else if b < a {
        assert(survives(verdicts[b], request));
    }
}

/// Of two survivors with the same number of mismatches, the later one in load order is not
/// the best.
pub proof fn lemma_earlier_wins_a_tie(
    verdicts: Seq<Verdict>,
    request: RequestView,
    earlier: int,
    later: int,
)
    requires
        0 <= earlier < later < verdicts.len(),
        survives(verdicts[earlier], request),
        survives(verdicts[later], request),
        mismatch_count(verdicts[earlier]) == mismatch_count(verdicts[later]),
    ensures
        !is_best(verdicts, request, later),
{
}

/// A survivor without mismatches is the best one where no survivor before it is without
/// mismatches too.
pub proof fn lemma_first_clean_survivor_is_best(
    verdicts: Seq<Verdict>,
    request: RequestView,
    k: int,
)
    requires
        0 <= k < verdicts.len(),
        survives(verdicts[k], request),
        mismatch_count(verdicts[k]) == 0,
        forall|j: int|
            0 <= j < k && survives(#[trigger] verdicts[j], request) ==> mismatch_count(verdicts[j])
                > 0,
    ensures
        is_best(verdicts, request, k),
{
}

/// A mismatch in the body does not rule an interaction out where the method of the request
/// is none of `POST`, `PUT` and `PATCH`, nor where the request holds no body.
pub proof fn lemma_body_mismatch_is_tolerated(request: RequestView)
    requires
        !method_carries_payload(request.method) || !request.body.is_present(),
    ensures
        !disqualifies(MismatchKind::Body, request),
        survives(Some(seq![MismatchKind::Body]), request),
{
}

/// An interaction without provider states passes every filter where interactions without
/// states are let through.
pub proof fn lemma_no_states_pass_when_empty_is_ok(
    states: Seq<ProviderState>,
    filter: Option<Seq<char>>,
)
    requires
        states.len() == 0,
    ensures
        state_accepts(states, filter, true),
{
}

/// The outcome of a search is determined by what the outside matcher said: two outcomes of
/// the search for one request among the same pacts, after the same verdicts, are the same.
pub proof fn lemma_search_is_determined(
    sources: Seq<(Pact, PactSource)>,
    request: RequestView,
    filter: Option<Seq<char>>,
    empty_ok: bool,
    said: Said,
    first: Option<Picked>,
    second: Option<Picked>,
)
    requires
        is_search(sources, request, filter, empty_ok, said, first),
        is_search(sources, request, filter, empty_ok, said, second),
    ensures
        first == second,
{
    let found = candidates(http_interactions(sources), said.paths, request, filter, empty_ok);
    if first is Some && second is Some {
        let a = choose|k: int|
            is_best(said.verdicts, request, k) && #[trigger] found[k] == first->0.interaction;
        let b = choose|k: int|
            is_best(said.verdicts, request, k) && #[trigger] found[k] == second->0.interaction;
        lemma_best_is_unique(said.verdicts, request, a, b);
    } else if first is Some {
        let a = choose|k: int|
            is_best(said.verdicts, request, k) && #[trigger] found[k] == first->0.interaction;
        assert(survives(said.verdicts[a], request));
    } else if second is Some {
        let b = choose|k: int|
            is_best(said.verdicts, request, k) && #[trigger] found[k] == second->0.interaction;
        assert(survives(said.verdicts[b], request));
    }
}

/// The outcome of a search depends on the pacts only through their HTTP interactions in load
/// order: how these are grouped into pacts, and which other interactions stand between them,
/// does not matter.
pub proof fn lemma_search_follows_load_order(
    first: Seq<(Pact, PactSource)>,
    second: Seq<(Pact, PactSource)>,
    request: RequestView,
    filter: Option<Seq<char>>,
    empty_ok: bool,
    said: Said,
    chosen: Option<Picked>,
)
    requires
        http_interactions(first) == http_interactions(second),
    ensures
        is_search(first, request, filter, empty_ok, said, chosen) == is_search(
            second,
            request,
            filter,
            empty_ok,
            said,
            chosen,
        ),
{
}

/// Where no interaction can be a candidate for a request, there is no candidate, whatever
/// verdicts on the path the outside matcher gave.
pub proof fn lemma_no_candidate_without_acceptance(
    all: Seq<SynchronousHttp>,
    paths: Seq<bool>,
    request: RequestView,
    filter: Option<Seq<char>>,
    empty_ok: bool,
)
    requires
        paths_fit(all, request, paths),
    ensures
        (forall|k: int|
            0 <= k < all.len() ==> !may_be_candidate(#[trigger] all[k], request, filter, empty_ok))
            ==> candidates(all, paths, request, filter, empty_ok).len() == 0,
    decreases all.len(),
{
    if all.len() > 0 {
        let rest = all.drop_last();
        let given = paths.drop_last();
        assert forall|k: int| 0 <= k < rest.len() implies path_verdict_fits(
            rest[k],
            request,
            #[trigger] given[k],
        ) by {
            assert(rest[k] == all[k]);
            assert(given[k] == paths[k]);
        }
        lemma_no_candidate_without_acceptance(rest, given, request, filter, empty_ok);
        if forall|k: int|
            0 <= k < all.len() ==> !may_be_candidate(#[trigger] all[k], request, filter, empty_ok) {
            assert forall|k: int| 0 <= k < rest.len() implies !may_be_candidate(
                #[trigger] rest[k],
                request,
                filter,
                empty_ok,
            ) by {
                assert(rest[k] == all[k]);
            }
            assert(!may_be_candidate(all[all.len() - 1], request, filter, empty_ok));
            assert(path_verdict_fits(all[all.len() - 1], request, paths[all.len() - 1]));
        }
    }
}

} // verus!
