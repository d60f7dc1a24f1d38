//! Loading pacts: what each source asks for, which documents of a broker are kept, and how
//! the documents of all the sources become the list that is served.

use crate::engine::{base64_of, encode_base64};
use crate::model::Pact;
use crate::pattern::{any_pattern_matches, NamePattern};
use crate::seqs::lemma_push_deep_view;
use crate::source::{AuthView, HttpAuth, PactSource, SourceView};
use vstd::prelude::*;
use vstd::utf8::encode_utf8;

verus! {

/// What went wrong with one document, and for a file where it lies.
#[derive(Debug, PartialEq, Eq)]
pub struct PactError {
    pub message: String,
    pub path: Option<String>,
}

/// The mathematical content of an error.
pub struct ErrorView {
    pub message: Seq<char>,
    pub path: Option<Seq<char>>,
}

impl View for PactError {
    type V = ErrorView;

    open spec fn view(&self) -> ErrorView {
        ErrorView { message: self.message@, path: self.path.deep_view() }
    }
}

impl DeepView for PactError {
    type V = ErrorView;

    open spec fn deep_view(&self) -> ErrorView {
        self@
    }
}

impl Clone for PactError {
    fn clone(&self) -> (copy: PactError)
        ensures
            copy@ == self@,
    {
        let path = match &self.path {
            Some(path) => Some(path.clone()),
            None => None,
        };
        PactError { message: self.message.clone(), path }
    }
}

/// A text followed by another.
fn prefixed(prefix: &str, detail: &str) -> (text: String)
    ensures
        text@ == prefix@ + detail@,
{
    let mut text = prefix.to_owned();
    text.append(detail);
    text
}

impl PactError {
    /// An error with a message and without a path.
    pub fn new(str: String) -> (error: PactError)
        ensures
            error@ == (ErrorView { message: str@, path: None }),
    {
        PactError { message: str, path: None }
    }

    /// The same error, for the file at `path`.
    pub fn with_path(&self, path: &str) -> (error: PactError)
        ensures
            error@ == (ErrorView { message: self@.message, path: Some(path@) }),
    {
        PactError { message: self.message.clone(), path: Some(path.to_owned()) }
    }

    /// The error for a request over HTTP that failed.
    pub fn request_failed(detail: &str) -> (error: PactError)
        ensures
            error@ == (ErrorView { message: "Request failed: "@ + detail@, path: None }),
    {
        PactError::new(prefixed("Request failed: ", detail))
    }

    /// The error for a body that is no JSON.
    pub fn invalid_json(detail: &str) -> (error: PactError)
        ensures
            error@ == (ErrorView { message: "Failed to parse JSON body: "@ + detail@, path: None }),
    {
        PactError::new(prefixed("Failed to parse JSON body: ", detail))
    }

    /// The error for a pact file that could not be read or understood.
    pub fn load_failed(detail: &str) -> (error: PactError)
        ensures
            error@ == (ErrorView { message: "Failed to load pact file: "@ + detail@, path: None }),
    {
        PactError::new(prefixed("Failed to load pact file: ", detail))
    }

    /// The error for a document behind a link of a broker that is no pact.
    pub fn link_failed(title: &str, href: &str, detail: &str) -> (error: PactError)
        ensures
            error@ == (ErrorView {
                message: "Error loading \""@ + title@ + "\" ("@ + href@ + ") - "@ + detail@,
                path: None,
            }),
    {
        let mut text = "Error loading \"".to_owned();
        text.append(title);
        text.append("\" (");
        text.append(href);
        text.append(") - ");
        text.append(detail);
        PactError::new(text)
    }

    /// The error for a directory that could not be walked.
    pub fn directory_failed(dir: &str, cause: &PactError) -> (error: PactError)
        ensures
            error@ == (ErrorView {
                message: "Could not load pacts from directory '"@ + dir@ + "' - "@ + shown(
                    cause@,
                ),
                path: None,
            }),
    {
        let mut text = "Could not load pacts from directory '".to_owned();
        text.append(dir);
        text.append("' - ");
        text.append(cause.to_string().as_str());
        PactError::new(text)
    }

    /// The error as a line of text: the message, and the path after ` - ` where there is one.
    pub fn to_string(&self) -> (text: String)
        ensures
            text@ == shown(self@),
    {
        match &self.path {
            Some(path) => {
                let mut text = self.message.clone();
                text.append(" - ");
                text.append(path.as_str());
                text
            },
            None => self.message.clone(),
        }
    }
}

/// An error as a line of text.
pub open spec fn shown(error: ErrorView) -> Seq<char> {
    match error.path {
        Some(path) => error.message + " - "@ + path,
        None => error.message,
    }
}

/// Whether a document that a broker handed out is kept under a list of patterns for a name.
/// A failure is always kept, so that it gets reported. A pact is kept where the list is
/// empty or one of its patterns matches the name.
pub open spec fn name_is_kept(patterns: Seq<Seq<char>>, name: Seq<char>) -> bool {
    patterns.len() == 0 || any_pattern_matches(patterns, name)
}

/// Whether a document is kept under the patterns for provider names.
pub fn filter_providers(providers: &Vec<NamePattern>, result: &Result<Pact, PactError>) -> (kept:
    bool)
    ensures
        kept == match *result {
            Ok(pact) => name_is_kept(providers.deep_view(), pact.provider@),
            Err(_) => true,
        },
{
    match result {
        Ok(pact) => {
            if providers.len() == 0 {
                true
            } else {
                NamePattern::any_matches(providers, pact.provider.as_str())
            }
        },
        Err(_) => true,
    }
}

/// Whether a document is kept under the patterns for consumer names.
pub fn filter_consumers(consumers: &Vec<NamePattern>, result: &Result<Pact, PactError>) -> (kept:
    bool)
    ensures
        kept == match *result {
            Ok(pact) => name_is_kept(consumers.deep_view(), pact.consumer@),
            Err(_) => true,
        },
{
    match result {
        Ok(pact) => {
            if consumers.len() == 0 {
                true
            } else {
                NamePattern::any_matches(consumers, pact.consumer.as_str())
            }
        },
        Err(_) => true,
    }
}

/// The text that a user and a password are sent as: `user:password`, or the user alone.
pub open spec fn credentials_text(user: Seq<char>, password: Option<Seq<char>>) -> Seq<char> {
    match password {
        Some(password) => user + ":"@ + password,
        None => user,
    }
}

/// The value of the `Authorization` header for credentials: `Basic` with the base64 form of
/// the user and password, or `Bearer` with the token.
pub open spec fn authorization_of(auth: AuthView) -> Seq<char> {
    match auth {
        AuthView::User(user, password) => "Basic "@ + base64_of(
            encode_utf8(credentials_text(user, password)),
        ),
        AuthView::Token(token) => "Bearer "@ + token,
    }
}

/// Whether credentials can be sent: a user and password must be short enough to encode, a
/// token always can.
pub open spec fn can_authorize(auth: AuthView) -> bool {
    match auth {
        AuthView::User(user, password) => encode_utf8(credentials_text(user, password)).len()
            <= usize::MAX / 2,
        AuthView::Token(_) => true,
    }
}

/// The value of the `Authorization` header for credentials, where they can be sent.
pub fn authorization(auth: &HttpAuth) -> (value: Option<String>)
    ensures
        value.deep_view() == if can_authorize(auth@) {
            Some(authorization_of(auth@))
        } else {
            None
        },
{
    match auth {
        HttpAuth::User(user, password) => {
            let mut text = user.clone();
            if let Some(password) = password {
                text.append(":");
                text.append(password.as_str());
            }
            let bytes = text.as_str().as_bytes_vec();
            if bytes.len() <= usize::MAX / 2 {
                Some(prefixed("Basic ", encode_base64(&bytes).as_str()))
            } else {
                None
            }
        },
        HttpAuth::Token(token) => Some(prefixed("Bearer ", token.as_str())),
    }
}

/// What has to be done to load the pacts of one source.
#[derive(Clone, Debug)]
pub enum LoadStep {
    /// Read and parse one file.
    ReadFile { path: String },
    /// Walk a directory and read every file with the extension.
    WalkDir { path: String, extension: String },
    /// Fetch one document from a URL, with the `Authorization` header given.
    FetchUrl { url: String, authorization: Option<String>, insecure_tls: bool },
    /// Follow the links of a broker and fetch every pact it offers.
    FetchBroker { url: String, auth: Option<HttpAuth> },
    /// Nothing to load.
    Nothing,
}

/// The mathematical content of a step.
pub enum StepView {
    ReadFile { path: Seq<char> },
    WalkDir { path: Seq<char>, extension: Seq<char> },
    FetchUrl { url: Seq<char>, authorization: Option<Seq<char>>, insecure_tls: bool },
    FetchBroker { url: Seq<char>, auth: Option<AuthView> },
    Nothing,
}

impl View for LoadStep {
    type V = StepView;

    open spec fn view(&self) -> StepView {
        match *self {
            LoadStep::ReadFile { path } => StepView::ReadFile { path: path@ },
            LoadStep::WalkDir { path, extension } => StepView::WalkDir {
                path: path@,
                extension: extension@,
            },
            LoadStep::FetchUrl { url, authorization, insecure_tls } => StepView::FetchUrl {
                url: url@,
                authorization: authorization.deep_view(),
                insecure_tls,
            },
            LoadStep::FetchBroker { url, auth } => StepView::FetchBroker {
                url: url@,
                auth: auth.deep_view(),
            },
            LoadStep::Nothing => StepView::Nothing,
        }
    }
}

/// The `Authorization` header for a fetch: that of the credentials, where there are any
/// that can be sent.
pub open spec fn authorization_for(auth: Option<AuthView>) -> Option<Seq<char>> {
    match auth {
        Some(auth) => if can_authorize(auth) {
            Some(authorization_of(auth))
        } else {
            None
        },
        None => None,
    }
}

/// What a source asks for. Files of a directory are picked by the extension given, `json`
/// where none is.
pub open spec fn step_for(source: SourceView, insecure_tls: bool, ext: Option<Seq<char>>) -> StepView {
    match source {
        SourceView::File(path) => StepView::ReadFile { path },
        SourceView::Dir(path) => StepView::WalkDir {
            path,
            extension: match ext {
                Some(ext) => ext,
                None => "json"@,
            },
        },
        SourceView::URL(url, auth) => StepView::FetchUrl {
            url,
            authorization: authorization_for(auth),
            insecure_tls,
        },
        SourceView::Broker { url, auth, .. } => StepView::FetchBroker { url, auth },
        SourceView::Unknown => StepView::Nothing,
    }
}

/// What has to be done to load the pacts of a source.
pub fn load_step(source: &PactSource, insecure_tls: bool, ext: Option<&String>) -> (step: LoadStep)
    ensures
        step@ == step_for(source@, insecure_tls, ext.deep_view()),
{
    match source {
        PactSource::File(path) => LoadStep::ReadFile { path: path.clone() },
        PactSource::Dir(path) => {
            let extension = match ext {
                Some(ext) => ext.clone(),
                None => "json".to_owned(),
            };
            LoadStep::WalkDir { path: path.clone(), extension }
        },
        PactSource::URL(url, auth) => {
            let authorization = match auth {
                Some(auth) => authorization(auth),
                None => None,
            };
            LoadStep::FetchUrl { url: url.clone(), authorization, insecure_tls }
        },
        PactSource::Broker { url, auth, .. } => LoadStep::FetchBroker {
            url: url.clone(),
            auth: crate::source::copy_auth(auth),
        },
        PactSource::Unknown => LoadStep::Nothing,
    }
}

/// The position of the last `.` in a name, or -1 where it has none.
pub open spec fn last_dot(name: Seq<char>) -> int
    decreases name.len(),
{
    if name.len() == 0 {
        -1
    } else if name.last() == '.' {
        name.len() - 1
    } else {
        last_dot(name.drop_last())
    }
}

/// The extension of a file name: what follows its last `.`. A name without a `.`, a name
/// whose only `.` is its first character, and the name `..` have none.
pub open spec fn extension_of(name: Seq<char>) -> Option<Seq<char>> {
    if name == ".."@ || last_dot(name) <= 0 {
        None
    } else {
        Some(name.skip(last_dot(name) + 1))
    }
}

/// Whether a file of a directory is loaded: its name has the extension asked for. The
/// comparison is exact, so `JSON` is not `json`.
pub fn has_extension(file_name: &str, ext: &str) -> (fits: bool)
    ensures
        fits == (extension_of(file_name@) == Some(ext@)),
{
    if file_name.eq("..") {
        return false;
    }
    let mut tail = String::new();
    let mut first = true;
    let mut inner_dot = false;
    for c in it: file_name.chars()
        invariant
            it.seq() == file_name@,
            first == (it.index() == 0),
            inner_dot == (last_dot(file_name@.take(it.index() as int)) > 0),
            last_dot(file_name@.take(it.index() as int)) < it.index(),
            inner_dot ==> tail@ == file_name@.take(it.index() as int).skip(
                last_dot(file_name@.take(it.index() as int)) + 1,
            ),
    {
        let ghost seen = file_name@.take(it.index() as int);
        let ghost now = file_name@.take(it.index() + 1);
        proof {
            assert(now.drop_last() =~= seen);
            assert(now.last() == c);
        }
        if c == '.' {
            inner_dot = !first;
            tail = String::new();
            assert(now.skip(last_dot(now) + 1) =~= Seq::<char>::empty());
        } else if inner_dot {
            tail.push(c);
            assert(now.skip(last_dot(now) + 1) =~= seen.skip(last_dot(seen) + 1).push(c));
        }
        first = false;
    }
    assert(file_name@.take(file_name@.len() as int) =~= file_name@);
    inner_dot && tail.as_str().eq(ext)
}

/// One document of a source: a pact, or what went wrong with it.
pub type Document = Result<Pact, PactError>;

/// One entry of the load: a pact with the source it came from, or what went wrong.
pub type Loaded = Result<(Pact, PactSource), PactError>;

/// The mathematical content of an entry of the load.
pub type LoadedView = Result<(Pact, SourceView), ErrorView>;

/// Whether a document of a source is kept. A broker keeps the pacts whose consumer and
/// provider pass its patterns; every other document is kept.
pub open spec fn keeps(source: SourceView, document: Document) -> bool {
    match source {
        SourceView::Broker { consumers, providers, .. } => match document {
            Ok(pact) => name_is_kept(consumers, pact.consumer@) && name_is_kept(
                providers,
                pact.provider@,
            ),
            Err(_) => true,
        },
        _ => true,
    }
}

/// A document with the source it came from.
pub open spec fn entry_of(source: SourceView, document: Document) -> LoadedView {
    match document {
        Ok(pact) => Ok((pact, source)),
        Err(error) => Err(error@),
    }
}

/// The entries that the documents of one source give: the documents kept, in their order.
pub open spec fn entries_of(source: SourceView, documents: Seq<Document>) -> Seq<LoadedView> {
    documents.filter(|document: Document| keeps(source, document)).map_values(
        |document: Document| entry_of(source, document),
    )
}

/// The entries that all the sources give: source after source in the order given, and for
/// each source its documents in the order found.
pub open spec fn all_entries(found: Seq<(PactSource, Vec<Document>)>) -> Seq<LoadedView> {
    found.map_values(|part: (PactSource, Vec<Document>)| entries_of(part.0@, part.1@)).flatten()
}

/// The mathematical content of an entry.
pub open spec fn loaded_view(loaded: Loaded) -> LoadedView {
    match loaded {
        Ok((pact, source)) => Ok((pact, source@)),
        Err(error) => Err(error@),
    }
}

/// The mathematical content of a list of entries.
pub open spec fn loaded_views(loaded: Seq<Loaded>) -> Seq<LoadedView> {
    loaded.map_values(|entry: Loaded| loaded_view(entry))
}

/// Whether a document of a source is kept.
pub fn is_kept(source: &PactSource, document: &Document) -> (kept: bool)
    ensures
        kept == keeps(source@, *document),
{
    match source {
        PactSource::Broker { consumers, providers, .. } => filter_consumers(consumers, document)
            && filter_providers(providers, document),
        _ => true,
    }
}

/// Puts the documents found for each source together into the list of what was loaded. The
/// order of the sources and of their documents is kept; one document that failed does not
/// stop the others.
pub fn load_pacts(found: Vec<(PactSource, Vec<Document>)>) -> (loaded: Vec<Loaded>)
    ensures
        loaded_views(loaded@) == all_entries(found@),
{
    let mut loaded: Vec<Loaded> = Vec::new();
    assert(loaded_views(loaded@) =~= all_entries(found@.take(0)));
    for part in outer: found.into_iter()
        invariant
            outer.seq() == found@,
            loaded_views(loaded@) == all_entries(found@.take(outer.index() as int)),
    {
        let ghost done = loaded_views(loaded@);
        let ghost group = |part: (PactSource, Vec<Document>)| entries_of(part.0@, part.1@);
        let (source, documents) = part;
        let ghost all = documents@;
        assert(entries_of(source@, all.take(0)) =~= Seq::empty());
        for document in inner: documents.into_iter()
            invariant
                inner.seq() == all,
                loaded_views(loaded@) == done + entries_of(source@, all.take(inner.index() as int)),
        {
            let ghost keep = |document: Document| keeps(source@, document);
            let ghost entry = |document: Document| entry_of(source@, document);
            let ghost held = loaded@;
            proof {
                assert(all.take(inner.index() + 1) =~= all.take(inner.index() as int).push(
                    document,
                ));
                all.take(inner.index() as int).lemma_filter_push(document, keep);
                all.take(inner.index() as int).filter(keep).lemma_push_map_commute(
                    entry,
                    document,
                );
            }
            if is_kept(&source, &document) {
                let item: Loaded = match document {
                    Ok(pact) => Ok((pact, source.clone())),
                    Err(error) => Err(error),
                };
                loaded.push(item);
                proof {
                    assert(loaded_view(item) == entry_of(source@, document));
                    assert(loaded_views(loaded@) =~= loaded_views(held).push(loaded_view(item)));
                    assert(loaded_views(loaded@) =~= done + entries_of(
                        source@,
                        all.take(inner.index() + 1),
                    ));
                }
            }
        }
        proof {
            let i = outer.index() as int;
            assert(all.take(all.len() as int) =~= all);
            assert(found@.take(i + 1).map_values(group) =~= found@.take(i).map_values(group).push(
                entries_of(source@, all),
            ));
            found@.take(i).map_values(group).lemma_flatten_push(entries_of(source@, all));
        }
    }
    assert(found@.take(found@.len() as int) =~= found@);
    loaded
}

/// The errors among the entries of a load, in order.
pub open spec fn errors_in(loaded: Seq<Loaded>) -> Seq<ErrorView> {
    loaded.filter_map(
        |entry: Loaded|
            match entry {
                Ok(_) => None,
                Err(error) => Some(error@),
            },
    )
}

/// The pacts among the entries of a load, each with its source, in order.
pub open spec fn pacts_in(loaded: Seq<Loaded>) -> Seq<(Pact, PactSource)> {
    loaded.filter_map(
        |entry: Loaded|
            match entry {
                Ok(pair) => Some(pair),
                Err(_) => None,
            },
    )
}

/// The exit code of a run that could not load its pacts.
pub const LOAD_FAILED_EXIT_CODE: u8 = 3;

/// Decides whether a load succeeded. It did where no entry is an error: then all the pacts
/// are handed on. One error fails the whole load, and all the errors are handed on to be
/// reported.
pub fn loaded_or_errors(loaded: Vec<Loaded>) -> (outcome: Result<
    Vec<(Pact, PactSource)>,
    Vec<PactError>,
>)
    ensures
        match outcome {
            Ok(pacts) => errors_in(loaded@).len() == 0 && pacts@ == pacts_in(loaded@),
            Err(errors) => errors.deep_view().len() > 0 && errors.deep_view() == errors_in(
                loaded@,
            ),
        },
{
    let mut pacts: Vec<(Pact, PactSource)> = Vec::new();
    let mut errors: Vec<PactError> = Vec::new();
    assert(errors.deep_view() =~= errors_in(loaded@.take(0)));
    assert(pacts@ =~= pacts_in(loaded@.take(0)));
    for entry in it: loaded.into_iter()
        invariant
            it.seq() == loaded@,
            errors.deep_view() == errors_in(loaded@.take(it.index() as int)),
            pacts@ == pacts_in(loaded@.take(it.index() as int)),
    {
        let ghost failed = |entry: Loaded|
            match entry {
                Ok(_) => None,
                Err(error) => Some(error@),
            };
        let ghost fine = |entry: Loaded|
            match entry {
                Ok(pair) => Some(pair),
                Err(_) => None,
            };
        let ghost before = errors;
        proof {
            loaded@.lemma_filter_map_take_succ(failed, it.index() as int);
            loaded@.lemma_filter_map_take_succ(fine, it.index() as int);
        }
        match entry {
            Ok(pair) => {
                pacts.push(pair);
                assert(pacts@ =~= pacts_in(loaded@.take(it.index() + 1)));
                assert(errors.deep_view() =~= errors_in(loaded@.take(it.index() + 1)));
            },
            Err(error) => {
                errors.push(error);
                proof {
                    lemma_push_deep_view(before, errors, error);
                    assert(errors.deep_view() =~= errors_in(loaded@.take(it.index() + 1)));
                    assert(pacts@ =~= pacts_in(loaded@.take(it.index() + 1)));
                }
            },
        }
    }
    assert(loaded@.take(loaded@.len() as int) =~= loaded@);
    if errors.len() == 0 {
        Ok(pacts)
    } else {
        Err(errors)
    }
}

} // verus!
