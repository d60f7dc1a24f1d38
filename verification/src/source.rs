//! Where pacts come from: the sources named on the command line.

use crate::pattern::NamePattern;
use crate::seqs::lemma_push_deep_view;
use crate::text::{head_of, split_at_colon, tail_of};
use vstd::prelude::*;

verus! {

/// Credentials for fetching a pact over HTTP.
#[derive(Debug)]
pub enum HttpAuth {
    /// A user name and, where one was given, a password.
    User(String, Option<String>),
    /// A bearer token.
    Token(String),
}

/// The mathematical content of credentials.
pub enum AuthView {
    User(Seq<char>, Option<Seq<char>>),
    Token(Seq<char>),
}

impl View for HttpAuth {
    type V = AuthView;

    open spec fn view(&self) -> AuthView {
        match *self {
            HttpAuth::User(user, password) => AuthView::User(user@, password.deep_view()),
            HttpAuth::Token(token) => AuthView::Token(token@),
        }
    }
}

impl DeepView for HttpAuth {
    type V = AuthView;

    open spec fn deep_view(&self) -> AuthView {
        self@
    }
}

impl Clone for HttpAuth {
    fn clone(&self) -> (copy: HttpAuth)
        ensures
            copy@ == self@,
    {
        match self {
            HttpAuth::User(user, password) => {
                let password = match password {
                    Some(text) => Some(text.clone()),
                    None => None,
                };
                HttpAuth::User(user.clone(), password)
            },
            HttpAuth::Token(token) => HttpAuth::Token(token.clone()),
        }
    }
}

/// Source for loading pacts.
#[derive(Debug)]
pub enum PactSource {
    /// Load the pact from a pact file.
    File(String),
    /// Load all the pacts from a directory.
    Dir(String),
    /// Load the pact from a URL.
    URL(String, Option<HttpAuth>),
    /// Load all pacts from a pact broker.
    Broker {
        /// Broker URL.
        url: String,
        /// Any required auth.
        auth: Option<HttpAuth>,
        /// Consumer names to filter pacts with.
        consumers: Vec<NamePattern>,
        /// Provider names to filter pacts with.
        providers: Vec<NamePattern>,
    },
    /// Source that is not known.
    Unknown,
}

/// The mathematical content of a source.
pub enum SourceView {
    File(Seq<char>),
    Dir(Seq<char>),
    URL(Seq<char>, Option<AuthView>),
    Broker {
        url: Seq<char>,
        auth: Option<AuthView>,
        consumers: Seq<Seq<char>>,
        providers: Seq<Seq<char>>,
    },
    Unknown,
}

impl View for PactSource {
    type V = SourceView;

    open spec fn view(&self) -> SourceView {
        match *self {
            PactSource::File(path) => SourceView::File(path@),
            PactSource::Dir(path) => SourceView::Dir(path@),
            PactSource::URL(url, auth) => SourceView::URL(url@, auth.deep_view()),
            PactSource::Broker { url, auth, consumers, providers } => SourceView::Broker {
                url: url@,
                auth: auth.deep_view(),
                consumers: consumers.deep_view(),
                providers: providers.deep_view(),
            },
            PactSource::Unknown => SourceView::Unknown,
        }
    }
}

impl DeepView for PactSource {
    type V = SourceView;

    open spec fn deep_view(&self) -> SourceView {
        self@
    }
}

/// A copy of a list of patterns.
pub fn copy_patterns(patterns: &Vec<NamePattern>) -> (copy: Vec<NamePattern>)
    ensures
        copy.deep_view() == patterns.deep_view(),
{
    let mut copy: Vec<NamePattern> = Vec::new();
    for i in 0..patterns.len()
        invariant
            copy@.len() == i,
            forall|j: int| 0 <= j < i ==> copy@[j]@ == patterns@[j]@,
    {
        copy.push(patterns[i].clone());
    }
    assert(copy.deep_view() =~= patterns.deep_view());
    copy
}

/// A copy of optional credentials.
pub fn copy_auth(auth: &Option<HttpAuth>) -> (copy: Option<HttpAuth>)
    ensures
        copy.deep_view() == auth.deep_view(),
{
    match auth {
        Some(auth) => Some(auth.clone()),
        None => None,
    }
}

impl Clone for PactSource {
    fn clone(&self) -> (copy: PactSource)
        ensures
            copy@ == self@,
    {
        match self {
            PactSource::File(path) => PactSource::File(path.clone()),
            PactSource::Dir(path) => PactSource::Dir(path.clone()),
            PactSource::URL(url, auth) => PactSource::URL(url.clone(), copy_auth(auth)),
            PactSource::Broker { url, auth, consumers, providers } => PactSource::Broker {
                url: url.clone(),
                auth: copy_auth(auth),
                consumers: copy_patterns(consumers),
                providers: copy_patterns(providers),
            },
            PactSource::Unknown => PactSource::Unknown,
        }
    }
}

/// What the command line says about sources: the values of its options, in the order given.
pub struct SourceArgs {
    pub files: Vec<String>,
    pub dirs: Vec<String>,
    pub urls: Vec<String>,
    pub broker_url: Option<String>,
    /// `user` or `user:password`.
    pub user: Option<String>,
    pub token: Option<String>,
    pub consumer_names: Vec<NamePattern>,
    pub provider_names: Vec<NamePattern>,
}

/// The credentials in `user[:password]`: the user is the text before the first `:`, the
/// password the text between the first `:` and the next one.
pub open spec fn user_auth_of(user: Seq<char>) -> AuthView {
    AuthView::User(
        head_of(user),
        match tail_of(user) {
            Some(rest) => Some(head_of(rest)),
            None => None,
        },
    )
}

/// The credentials that the options ask for: a user wins over a token.
pub open spec fn auth_of(user: Option<Seq<char>>, token: Option<Seq<char>>) -> Option<AuthView> {
    match user {
        Some(user) => Some(user_auth_of(user)),
        None => match token {
            Some(token) => Some(AuthView::Token(token)),
            None => None,
        },
    }
}

/// The credentials that the options ask for.
pub fn credentials(user: &Option<String>, token: &Option<String>) -> (auth: Option<HttpAuth>)
    ensures
        auth.deep_view() == auth_of(user.deep_view(), token.deep_view()),
{
    match user {
        Some(user) => {
            let (name, rest) = split_at_colon(user.as_str());
            let password = match rest {
                Some(rest) => Some(split_at_colon(rest.as_str()).0),
                None => None,
            };
            Some(HttpAuth::User(name, password))
        },
        None => match token {
            Some(token) => Some(HttpAuth::Token(token.clone())),
            None => None,
        },
    }
}

/// The broker source that the options ask for, where they name a broker.
pub open spec fn broker_of(args: SourceArgs) -> Seq<SourceView> {
    match args.broker_url {
        Some(url) => seq![
            SourceView::Broker {
                url: url@,
                auth: auth_of(args.user.deep_view(), args.token.deep_view()),
                consumers: args.consumer_names.deep_view(),
                providers: args.provider_names.deep_view(),
            },
        ],
        None => Seq::empty(),
    }
}

/// The sources that the options ask for: files, then directories, then URLs, then the broker.
pub open spec fn sources_of(args: SourceArgs) -> Seq<SourceView> {
    args.files.deep_view().map_values(|path: Seq<char>| SourceView::File(path))
        + args.dirs.deep_view().map_values(|path: Seq<char>| SourceView::Dir(path))
        + args.urls.deep_view().map_values(
        |url: Seq<char>|
            SourceView::URL(url, auth_of(args.user.deep_view(), args.token.deep_view())),
    ) + broker_of(args)
}

/// Turns the options of the command line into the list of sources.
pub fn pact_source(args: &SourceArgs) -> (sources: Vec<PactSource>)
    ensures
        sources.deep_view() == sources_of(*args),
{
    let ghost auth = auth_of(args.user.deep_view(), args.token.deep_view());
    let ghost files = args.files.deep_view().map_values(|path: Seq<char>| SourceView::File(path));
    let ghost dirs = args.dirs.deep_view().map_values(|path: Seq<char>| SourceView::Dir(path));
    let ghost urls = args.urls.deep_view().map_values(|url: Seq<char>| SourceView::URL(url, auth));
    let ghost all = files + dirs + urls + broker_of(*args);
    let mut sources: Vec<PactSource> = Vec::new();
    for i in 0..args.files.len()
        invariant
            sources@.len() == i,
            files.len() == args.files.len(),
            all == files + dirs + urls + broker_of(*args),
            forall|j: int| 0 <= j < files.len() ==> files[j] == SourceView::File(args.files@[j]@),
            forall|j: int| 0 <= j < i ==> (#[trigger] sources@[j])@ == all[j],
    {
        sources.push(PactSource::File(args.files[i].clone()));
    }
    for i in 0..args.dirs.len()
        invariant
            sources@.len() == files.len() + i,
            dirs.len() == args.dirs.len(),
            all == files + dirs + urls + broker_of(*args),
            forall|j: int| 0 <= j < dirs.len() ==> dirs[j] == SourceView::Dir(args.dirs@[j]@),
            forall|j: int| 0 <= j < files.len() + i ==> (#[trigger] sources@[j])@ == all[j],
    {
        sources.push(PactSource::Dir(args.dirs[i].clone()));
    }
    for i in 0..args.urls.len()
        invariant
            sources@.len() == files.len() + dirs.len() + i,
            urls.len() == args.urls.len(),
            all == files + dirs + urls + broker_of(*args),
            auth == auth_of(args.user.deep_view(), args.token.deep_view()),
            forall|j: int| 0 <= j < urls.len() ==> urls[j] == SourceView::URL(args.urls@[j]@, auth),
            forall|j: int|
                0 <= j < files.len() + dirs.len() + i ==> (#[trigger] sources@[j])@ == all[j],
    {
        let auth = credentials(&args.user, &args.token);
        sources.push(PactSource::URL(args.urls[i].clone(), auth));
    }
    if let Some(url) = &args.broker_url {
        let auth = credentials(&args.user, &args.token);
        sources.push(
            PactSource::Broker {
                url: url.clone(),
                auth,
                consumers: copy_patterns(&args.consumer_names),
                providers: copy_patterns(&args.provider_names),
            },
        );
    }
    assert(sources.deep_view() =~= all);
    sources
}

/// The path that a source asks to be watched: files and directories can be, the rest cannot.
pub open spec fn watch_path(source: SourceView) -> Option<Seq<char>> {
    match source {
        SourceView::File(path) => Some(path),
        SourceView::Dir(path) => Some(path),
        _ => None,
    }
}

/// The paths to watch among a list of sources: those of its files and directories, in order.
pub open spec fn watch_paths(sources: Seq<SourceView>) -> Seq<Seq<char>> {
    sources.filter_map(|s: SourceView| watch_path(s))
}

/// The paths to watch for changes: those of the file and directory sources, in order.
pub fn get_watch_paths(sources: &Vec<PactSource>) -> (paths: Vec<String>)
    ensures
        paths.deep_view() == watch_paths(sources.deep_view()),
{
    let mut paths: Vec<String> = Vec::new();
    for i in 0..sources.len()
        invariant
            paths.deep_view() == watch_paths(sources.deep_view().take(i as int)),
    {
        let ghost pick = |s: SourceView| watch_path(s);
        let ghost before = paths;
        proof {
            sources.deep_view().lemma_filter_map_take_succ(pick, i as int);
            assert(sources.deep_view()[i as int] == sources@[i as int]@);
        }
        match &sources[i] {
            PactSource::File(path) => {
                paths.push(path.clone());
                proof {
                    lemma_push_deep_view(before, paths, *path);
                    assert(paths.deep_view() =~= watch_paths(sources.deep_view().take(i + 1)));
                }
            },
            PactSource::Dir(path) => {
                paths.push(path.clone());
                proof {
                    lemma_push_deep_view(before, paths, *path);
                    assert(paths.deep_view() =~= watch_paths(sources.deep_view().take(i + 1)));
                }
            },
            _ => {
                assert(paths.deep_view() =~= watch_paths(sources.deep_view().take(i + 1)));
            },
        }
    }
    assert(sources.deep_view().take(sources.len() as int) =~= sources.deep_view());
    paths
}

} // verus!
