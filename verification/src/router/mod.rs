pub mod builder;
pub mod config;
pub mod exchange;
pub mod factory;
pub mod path;
pub mod pipeline;
pub mod route;

pub use config::RouterConfig;
pub use path::{LoadedChain, PathMatcherError};
pub use route::{RouteKey, RouteKeyParser};

use vstd::prelude::*;

verus! {

/// Routes requests: the parser finds a request's key, the matcher the
/// chain of handlers for that key.
pub struct Router<P, M> {
    pub matcher: M,
    pub parser: P,
}

impl<P, M> Router<P, M> {
    pub fn new(parser: P, matcher: M) -> (r: Self)
        ensures
            r.parser == parser,
            r.matcher == matcher,
    {
        Self { parser, matcher }
    }
}

/// Why a request could not be routed.
#[derive(Debug)]
pub enum RouterError {
    MissingRoute { key1: String, key2: String },
    ExecutionFailure { message: String },
    PathMatcherError { source: PathMatcherError },
    MissingResponseError,
}

impl RouterError {
    /// A `MissingRoute` error for the two parts of a key.
    pub fn missing_route(key1: &str, key2: &str) -> (e: Self)
        ensures
            e matches RouterError::MissingRoute { key1: k1, key2: k2 } && k1@ == key1@ && k2@ == key2@,
    {
        RouterError::MissingRoute { key1: key1.to_owned(), key2: key2.to_owned() }
    }

    /// Wraps an error of the path matcher.
    pub fn path_matcher_error(err: PathMatcherError) -> (e: Self)
        ensures
            e == (RouterError::PathMatcherError { source: err }),
    {
        RouterError::PathMatcherError { source: err }
    }

    /// The text displayed for the error.
    pub fn to_text(&self) -> (r: String)
        ensures
            r@ == (match self {
                RouterError::MissingRoute { key1, key2 } =>
                    "Matching route for key ("@ + key1@ + " -- "@ + key2@ + ") was not found."@,
                RouterError::ExecutionFailure { message } => message@,
                RouterError::PathMatcherError { .. } => "Error while building path matcher."@,
                RouterError::MissingResponseError => "No handler configured to produce a response."@,
            }),
    {
        match self {
            RouterError::MissingRoute { key1, key2 } => {
                let mut r = "Matching route for key (".to_owned();
                r.push_str(key1.as_str());
                r.push_str(" -- ");
                r.push_str(key2.as_str());
                r.push_str(") was not found.");
                r
            },
            RouterError::ExecutionFailure { message } => message.clone(),
            RouterError::PathMatcherError { .. } => "Error while building path matcher.".to_owned(),
            RouterError::MissingResponseError => "No handler configured to produce a response.".to_owned(),
        }
    }
}

} // verus!
