//! Stub server driven by consumer contracts: the decisions it takes, verified.

pub mod args;
pub mod engine;
pub mod handler;
pub mod loading;
pub mod model;
pub mod pact_support;
pub mod pattern;
pub mod registry;
pub mod rules;
pub mod seqs;
pub mod server;
pub mod source;
pub mod text;

pub use args::integer_value;
pub use loading::{load_pacts, PactError};
pub use pact_support::{hyper_request_to_pact_request, pact_response_to_hyper_response};
pub use pattern::regex_value;
pub use source::{get_watch_paths, pact_source, HttpAuth, PactSource};
