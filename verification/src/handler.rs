//! The request handler: from what came in on the wire to what goes out.

use crate::engine::renders_safely;
use crate::model::{Body, BodyView, RequestView, SynchronousHttp};
use crate::pact_support::{
    grouped, header_text, hyper_request_to_pact_request, pact_response_to_hyper_response,
    readable, wire_of, RawLines, WireResponse,
};
use crate::pattern::{regex_error, NamePattern};
use crate::registry::{Entry, Registry, Snapshot};
use crate::server::{
    candidates, fallback, handle_request, handled, http_interactions, is_search, none_may_match,
    response_for, survives, Picked, Said, Verdict,
};
use crate::text::{eq_ignoring_case, same_ignoring_case};
use vstd::prelude::*;

verus! {

/// The value of the first header line with a name, compared without regard to case.
pub open spec fn line_value(lines: RawLines, name: Seq<char>) -> Option<Seq<u8>>
    decreases lines.len(),
{
    if lines.len() == 0 {
        None
    } else if same_ignoring_case(lines[0].0, name) {
        Some(lines[0].1)
    } else {
        line_value(lines.drop_first(), name)
    }
}

/// Looks up the value of the first header line with a name.
pub fn find_line<'a>(lines: &'a Vec<(String, Vec<u8>)>, name: &str) -> (value: Option<
    &'a Vec<u8>,
>)
    ensures
        match value {
            Some(raw) => line_value(lines.deep_view(), name@) == Some(raw@),
            None => line_value(lines.deep_view(), name@) is None,
        },
{
    let ghost all = lines.deep_view();
    assert(all.skip(0) =~= all);
    for i in 0..lines.len()
        invariant
            all == lines.deep_view(),
            line_value(all, name@) == line_value(all.skip(i as int), name@),
    {
        proof {
            assert(all.skip(i as int)[0] == all[i as int]);
            assert(all.skip(i as int).drop_first() =~= all.skip(i + 1));
            assert(all[i as int] == lines@[i as int].deep_view());
            assert(all[i as int].1 =~= lines@[i as int].1@);
        }
        if eq_ignoring_case(lines[i].0.as_str(), name) {
            return Some(&lines[i].1);
        }
    }
    None
}

/// The pattern that a request brings along for the provider states: the value of the header
/// that was named for it, where the request has that header and its value is text that
/// compiles as a regular expression.
pub open spec fn override_of(lines: RawLines, header_name: Option<Seq<char>>) -> Option<
    Seq<char>,
> {
    match header_name {
        Some(name) => match line_value(lines, name) {
            Some(raw) => match readable(raw) {
                Some(text) => if regex_error(text) is None {
                    Some(text)
                } else {
                    None
                },
                None => None,
            },
            None => None,
        },
        None => None,
    }
}

/// The pattern that filters the provider states for a request: the one that the request
/// brings along, else the one that the server was started with.
pub open spec fn effective_filter(
    lines: RawLines,
    header_name: Option<Seq<char>>,
    configured: Option<Seq<char>>,
) -> Option<Seq<char>> {
    match override_of(lines, header_name) {
        Some(pattern) => Some(pattern),
        None => configured,
    }
}

/// Whether a request names a pattern for the provider states that is passed over: it holds
/// the header that was named for it, but the value is no text or no regular expression.
/// That is worth a warning.
pub open spec fn header_is_ignored(lines: RawLines, header_name: Option<Seq<char>>) -> bool {
    match header_name {
        Some(name) => line_value(lines, name) is Some && override_of(lines, header_name) is None,
        None => false,
    }
}

/// The pattern that filters the provider states for a request, and whether the request
/// named one that was passed over.
#[derive(Debug)]
pub struct StateFilter {
    pub pattern: Option<NamePattern>,
    pub header_ignored: bool,
}

/// The pattern that filters the provider states for a request. A header value that is no
/// regular expression does not replace the pattern that the server was started with.
pub fn provider_state_for(
    lines: &Vec<(String, Vec<u8>)>,
    header_name: Option<&String>,
    configured: Option<&NamePattern>,
) -> (filter: StateFilter)
    ensures
        filter.pattern.deep_view() == effective_filter(
            lines.deep_view(),
            header_name.deep_view(),
            configured.deep_view(),
        ),
        filter.header_ignored == header_is_ignored(lines.deep_view(), header_name.deep_view()),
{
    let mut header_ignored = false;
    if let Some(name) = header_name {
        if let Some(raw) = find_line(lines, name.as_str()) {
            if let Some(text) = header_text(raw) {
                if let Ok(pattern) = NamePattern::compile(text.as_str()) {
                    return StateFilter { pattern: Some(pattern), header_ignored: false };
                }
            }
            header_ignored = true;
        }
    }
    let pattern = match configured {
        Some(pattern) => Some(pattern.clone()),
        None => None,
    };
    StateFilter { pattern, header_ignored }
}

/// The warning for a provider state header that was passed over.
pub fn ignored_header_warning(name: &str) -> (text: String)
    ensures
        text@ == "The value of the header '"@ + name@
            + "' is not a regular expression, the provider state filter stays as it is"@,
{
    let mut text = "The value of the header '".to_owned();
    text.append(name);
    text.append("' is not a regular expression, the provider state filter stays as it is");
    text
}

/// The body of a request that came in with these bytes: empty without bytes, else present
/// without a content type.
pub open spec fn body_of(bytes: Seq<u8>) -> BodyView {
    if bytes.len() == 0 {
        BodyView::Empty
    } else {
        BodyView::Present(bytes, None, None)
    }
}

/// The body of a request that came in with these bytes.
pub fn body_from_bytes(bytes: Vec<u8>) -> (body: Body)
    ensures
        body@ == body_of(bytes@),
{
    if bytes.len() == 0 {
        Body::Empty
    } else {
        Body::Present(bytes, None, None)
    }
}

/// What a server was started with.
pub struct Shared {
    /// The pacts to serve where the server does not watch its sources.
    pub sources: Registry,
    /// Whether the server watches its sources and serves what the last reload published.
    pub watching: bool,
    /// Whether to answer CORS preflights that no interaction answers.
    pub auto_cors: bool,
    /// Whether a preflight reply allows the referer in place of every origin.
    pub cors_referer: bool,
    /// The pattern that filters interactions by provider state.
    pub provider_state: Option<NamePattern>,
    /// The request header that may bring along another pattern.
    pub provider_state_header_name: Option<String>,
    /// Whether interactions without provider state pass the filter.
    pub empty_provider_states: bool,
}

/// Answers requests from the pacts.
pub struct ServerHandler {
    pub shared: Shared,
}

/// What the parts of a request on the wire are taken for, but for the query, which neither
/// the search for candidates nor the fallback looks at.
pub open spec fn incoming(
    method: Seq<char>,
    path: Seq<char>,
    lines: RawLines,
    body: Seq<u8>,
) -> RequestView {
    RequestView {
        method,
        path,
        query: None,
        headers: if lines.len() == 0 {
            None
        } else {
            Some(grouped(lines))
        },
        body: body_of(body),
    }
}

/// The candidates for a request do not depend on its query, headers or body.
pub proof fn lemma_candidates_ignore_the_rest(
    all: Seq<SynchronousHttp>,
    paths: Seq<bool>,
    first: RequestView,
    second: RequestView,
    filter: Option<Seq<char>>,
    empty_ok: bool,
)
    requires
        first.method == second.method,
        first.path == second.path,
    ensures
        candidates(all, paths, first, filter, empty_ok) == candidates(
            all,
            paths,
            second,
            filter,
            empty_ok,
        ),
    decreases all.len(),
{
    if all.len() > 0 && paths.len() == all.len() {
        lemma_candidates_ignore_the_rest(
            all.drop_last(),
            paths.drop_last(),
            first,
            second,
            filter,
            empty_ok,
        );
    }
}

/// Neither the outcome of the search for a request nor its fallback depend on its query.
pub proof fn lemma_query_does_not_matter(
    sources: Seq<Entry>,
    first: RequestView,
    second: RequestView,
    filter: Option<Seq<char>>,
    empty_ok: bool,
    auto_cors: bool,
    cors_referer: bool,
    said: Said,
    chosen: Option<Picked>,
)
    requires
        first.method == second.method,
        first.path == second.path,
        first.headers == second.headers,
        first.body == second.body,
    ensures
        is_search(sources, first, filter, empty_ok, said, chosen) == is_search(
            sources,
            second,
            filter,
            empty_ok,
            said,
            chosen,
        ),
        none_may_match(sources, first, filter, empty_ok) == none_may_match(
            sources,
            second,
            filter,
            empty_ok,
        ),
        fallback(first, auto_cors, cors_referer) == fallback(second, auto_cors, cors_referer),
{
    lemma_candidates_ignore_the_rest(
        http_interactions(sources),
        said.paths,
        first,
        second,
        filter,
        empty_ok,
    );
    assert forall|verdict: Verdict| survives(verdict, first) == survives(verdict, second) by {}
    let keep_first = |verdict: Verdict| survives(verdict, first);
    let keep_second = |verdict: Verdict| survives(verdict, second);
    assert(keep_first =~= keep_second);
}

/// What goes out for a request, and what is worth a warning.
#[derive(Debug)]
pub struct Answer {
    pub wire: WireResponse,
    /// Whether more than one candidate survived.
    pub contested: bool,
    /// Whether the request named a provider state pattern that was passed over.
    pub state_header_ignored: bool,
}

/// Whether an answer is what the outcome of a search calls for. For a selection it is
/// contested as the selection is, and the recorded response as it goes out on the wire
/// where that cannot be rendered. Without a selection it is the fallback's response on the
/// wire, and not contested.
pub open spec fn answered(
    chosen: Option<Picked>,
    answer: Answer,
    request: RequestView,
    auto_cors: bool,
    cors_referer: bool,
) -> bool {
    match chosen {
        Some(selection) => {
            &&& answer.contested == selection.contested
            &&& !renders_safely(selection.interaction) ==> answer.wire@ == wire_of(
                selection.interaction.response@,
            )
        },
        None => {
            &&& answer.wire@ == wire_of(
                response_for(fallback(request, auto_cors, cors_referer), auto_cors),
            )
            &&& !answer.contested
        },
    }
}

impl ServerHandler {
    /// A handler that serves a fixed list of pacts.
    pub fn new(
        sources: Vec<Entry>,
        auto_cors: bool,
        cors_referer: bool,
        provider_state: Option<NamePattern>,
        provider_state_header_name: Option<String>,
        empty_provider_states: bool,
    ) -> (handler: ServerHandler)
        ensures
            handler.shared.sources@ == sources@,
            !handler.shared.watching,
            handler.shared.auto_cors == auto_cors,
            handler.shared.cors_referer == cors_referer,
            handler.shared.provider_state == provider_state,
            handler.shared.provider_state_header_name == provider_state_header_name,
            handler.shared.empty_provider_states == empty_provider_states,
    {
        ServerHandler {
            shared: Shared {
                sources: Registry::new(sources),
                watching: false,
                auto_cors,
                cors_referer,
                provider_state,
                provider_state_header_name,
                empty_provider_states,
            },
        }
    }

    /// A handler that serves what the registry of a watching server holds. It has no pacts
    /// of its own.
    pub fn new_with_watch(
        auto_cors: bool,
        cors_referer: bool,
        provider_state: Option<NamePattern>,
        provider_state_header_name: Option<String>,
        empty_provider_states: bool,
    ) -> (handler: ServerHandler)
        ensures
            handler.shared.sources@.len() == 0,
            handler.shared.watching,
            handler.shared.auto_cors == auto_cors,
            handler.shared.cors_referer == cors_referer,
            handler.shared.provider_state == provider_state,
            handler.shared.provider_state_header_name == provider_state_header_name,
            handler.shared.empty_provider_states == empty_provider_states,
    {
        ServerHandler {
            shared: Shared {
                sources: Registry::new(Vec::new()),
                watching: true,
                auto_cors,
                cors_referer,
                provider_state,
                provider_state_header_name,
                empty_provider_states,
            },
        }
    }

    /// The pacts to answer a request from: those of the registry that is watched, where the
    /// server watches and there is one, else the handler's own.
    pub fn sources_for(&self, watched: Option<&Registry>) -> (snapshot: Snapshot)
        ensures
            snapshot@ == match watched {
                Some(registry) => if self.shared.watching {
                    registry@
                } else {
                    self.shared.sources@
                },
                None => self.shared.sources@,
            },
    {
        match watched {
            Some(registry) => if self.shared.watching {
                registry.snapshot()
            } else {
                self.shared.sources.snapshot()
            },
            None => self.shared.sources.snapshot(),
        }
    }

    /// Answers one request from a snapshot of the pacts. The request is given by the parts
    /// of its request line, its header lines in wire order, and the bytes of its body.
    ///
    /// The outside matcher and generators have their say. Whatever it is, the answer is what
    /// the outcome of the search calls for, and where no interaction can be a candidate that
    /// is the fallback as it goes out on the wire: the preflight reply or status 404.
    pub fn call(
        &self,
        sources: &Vec<Entry>,
        method: &str,
        path: &str,
        query: Option<&str>,
        lines: &Vec<(String, Vec<u8>)>,
        body: Vec<u8>,
    ) -> (answer: Answer)
        ensures
            exists|said: Said, chosen: Option<Picked>|
                is_search(
                    sources@,
                    incoming(method@, path@, lines.deep_view(), body@),
                    effective_filter(
                        lines.deep_view(),
                        self.shared.provider_state_header_name.deep_view(),
                        self.shared.provider_state.deep_view(),
                    ),
                    self.shared.empty_provider_states,
                    said,
                    chosen,
                ) && answered(
                    chosen,
                    answer,
                    incoming(method@, path@, lines.deep_view(), body@),
                    self.shared.auto_cors,
                    self.shared.cors_referer,
                ),
            none_may_match(
                sources@,
                incoming(method@, path@, lines.deep_view(), body@),
                effective_filter(
                    lines.deep_view(),
                    self.shared.provider_state_header_name.deep_view(),
                    self.shared.provider_state.deep_view(),
                ),
                self.shared.empty_provider_states,
            ) ==> answer.wire@ == wire_of(
                response_for(
                    fallback(
                        incoming(method@, path@, lines.deep_view(), body@),
                        self.shared.auto_cors,
                        self.shared.cors_referer,
                    ),
                    self.shared.auto_cors,
                ),
            ) && !answer.contested,
            answer.state_header_ignored == header_is_ignored(
                lines.deep_view(),
                self.shared.provider_state_header_name.deep_view(),
            ),
    {
        let filter = provider_state_for(
            lines,
            self.shared.provider_state_header_name.as_ref(),
            self.shared.provider_state.as_ref(),
        );
        let request = hyper_request_to_pact_request(
            method,
            path,
            query,
            lines,
            body_from_bytes(body),
        );
        let reply = handle_request(
            &request,
            self.shared.auto_cors,
            self.shared.cors_referer,
            sources,
            filter.pattern.as_ref(),
            self.shared.empty_provider_states,
        );
        let answer = Answer {
            wire: pact_response_to_hyper_response(&reply.response),
            contested: reply.contested,
            state_header_ignored: filter.header_ignored,
        };
        proof {
            let probe = incoming(method@, path@, lines.deep_view(), body@);
            let witness = choose|said: Said, chosen: Option<Picked>|
                is_search(
                    sources@,
                    request@,
                    filter.pattern.deep_view(),
                    self.shared.empty_provider_states,
                    said,
                    chosen,
                ) && handled(
                    chosen,
                    reply,
                    request@,
                    self.shared.auto_cors,
                    self.shared.cors_referer,
                );
            lemma_query_does_not_matter(
                sources@,
                request@,
                probe,
                filter.pattern.deep_view(),
                self.shared.empty_provider_states,
                self.shared.auto_cors,
                self.shared.cors_referer,
                witness.0,
                witness.1,
            );
            assert(is_search(
                sources@,
                probe,
                filter.pattern.deep_view(),
                self.shared.empty_provider_states,
                witness.0,
                witness.1,
            ) && answered(
                witness.1,
                answer,
                probe,
                self.shared.auto_cors,
                self.shared.cors_referer,
            ));
        }
        answer
    }
}

} // verus!
