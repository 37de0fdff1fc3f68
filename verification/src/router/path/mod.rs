//! Loading handler chains from the registry, and matching route keys to
//! loaded chains.
pub mod http;

use vstd::prelude::*;
use std::sync::Arc;
use crate::handler::{HandlerId, HandlerRegistry, HandlerRegistryError, handler_id_of};
use crate::handler::registry::registry_error_text;
use crate::router::config::{PathChain, PathChainView, RouterConfig, names_view};
use crate::router::route::RouteKey;

verus! {

/// Errors that can occur while building or using a path matcher.
#[derive(Debug)]
pub enum PathMatcherError {
    InvalidConfiguration { message: String },
    InvalidPath { path: String },
    InvalidMethod { method: String },
    HandlerRegistryError { source: HandlerRegistryError },
}

impl PathMatcherError {
    /// An `InvalidConfiguration` error with `message`.
    pub(crate) fn invalid_configuration(message: &str) -> (e: Self)
        ensures
            e matches PathMatcherError::InvalidConfiguration { message: m } && m@ == message@,
    {
        Self::InvalidConfiguration { message: message.to_owned() }
    }

    /// An `InvalidMethod` error for `method`.
    pub(crate) fn invalid_method(method: &str) -> (e: Self)
        ensures
            e matches PathMatcherError::InvalidMethod { method: m } && m@ == method@,
    {
        Self::InvalidMethod { method: method.to_owned() }
    }

    /// Wraps a registry error.
    pub(crate) fn registry_error(registry_error: HandlerRegistryError) -> (e: Self)
        ensures
            e == (PathMatcherError::HandlerRegistryError { source: registry_error }),
    {
        Self::HandlerRegistryError { source: registry_error }
    }

    /// The text displayed for the error.
    pub fn to_text(&self) -> (r: String)
        ensures
            r@ == path_matcher_error_text(*self),
    {
        match self {
            PathMatcherError::InvalidConfiguration { message } => {
                let mut r = "Invalid path configuration. ".to_owned();
                r.push_str(message.as_str());
                r
            },
            PathMatcherError::InvalidPath { path } => {
                let mut r = "Path '".to_owned();
                r.push_str(path.as_str());
                r.push_str("' is invalid.");
                r
            },
            PathMatcherError::InvalidMethod { method } => {
                let mut r = "Method '".to_owned();
                r.push_str(method.as_str());
                r.push_str("' is invalid.");
                r
            },
            PathMatcherError::HandlerRegistryError { .. } => "Failed to register handler.".to_owned(),
        }
    }

    /// The text of the registry error behind this one, where there is one.
    pub fn source_text(&self) -> (r: Option<String>)
        ensures
            match self {
                PathMatcherError::HandlerRegistryError { source } => r matches Some(t) && t@ == registry_error_text(*source),
                _ => r is None,
            },
    {
        match self {
            PathMatcherError::HandlerRegistryError { source } => Some(source.to_text()),
            _ => None,
        }
    }
}

/// The text displayed for a path matcher error.
pub open spec fn path_matcher_error_text(e: PathMatcherError) -> Seq<char> {
    match e {
        PathMatcherError::InvalidConfiguration { message } => "Invalid path configuration. "@ + message@,
        PathMatcherError::InvalidPath { path } => "Path '"@ + path@ + "' is invalid."@,
        PathMatcherError::InvalidMethod { method } => "Method '"@ + method@ + "' is invalid."@,
        PathMatcherError::HandlerRegistryError { .. } => "Failed to register handler."@,
    }
}

/// A request-processing pipeline with its handlers loaded: request handlers,
/// the termination handler, and response handlers.
pub struct LoadedChain<Q, T, R> {
    request_handlers: Vec<Q>,
    termination_handler: T,
    response_handlers: Vec<R>,
}

impl<Q, T, R> LoadedChain<Q, T, R> {
    pub closed spec fn request_spec(&self) -> Seq<Q> {
        self.request_handlers@
    }

    pub closed spec fn termination_spec(&self) -> T {
        self.termination_handler
    }

    pub closed spec fn response_spec(&self) -> Seq<R> {
        self.response_handlers@
    }

    /// Creates a chain from its three parts.
    pub fn new(request_handlers: Vec<Q>, termination_handler: T, response_handlers: Vec<R>) -> (c: Self)
        ensures
            c.request_spec() == request_handlers@,
            c.termination_spec() == termination_handler,
            c.response_spec() == response_handlers@,
    {
        Self { request_handlers, termination_handler, response_handlers }
    }

    /// The total number of handlers in this chain.
    pub fn size(&self) -> (n: usize)
        requires
            self.request_spec().len() + 1 + self.response_spec().len() <= usize::MAX,
        ensures
            n == self.request_spec().len() + 1 + self.response_spec().len(),
    {
        self.request_handlers.len() + 1 + self.response_handlers.len()
    }

    /// The request handlers, in order.
    pub fn request_handlers(&self) -> (r: &Vec<Q>)
        ensures
            r@ == self.request_spec(),
    {
        &self.request_handlers
    }

    /// The termination handler.
    pub fn termination_handler(&self) -> (r: &T)
        ensures
            *r == self.termination_spec(),
    {
        &self.termination_handler
    }

    /// The response handlers, in order.
    pub fn response_handlers(&self) -> (r: &Vec<R>)
        ensures
            r@ == self.response_spec(),
    {
        &self.response_handlers
    }
}

/// The names of an optional list, or none.
pub open spec fn names_or_empty(o: Option<Seq<Seq<char>>>) -> Seq<Seq<char>> {
    match o {
        Some(s) => s,
        None => Seq::empty(),
    }
}

/// The identity of the first of `names` that `present` lacks.
pub open spec fn first_missing(names: Seq<Seq<char>>, present: Set<u64>) -> Option<u64>
    decreases names.len(),
{
    if names.len() == 0 {
        None
    } else if !present.contains(handler_id_of(names[0])) {
        Some(handler_id_of(names[0]))
    } else {
        first_missing(names.drop_first(), present)
    }
}

/// The identity of the first handler of `pc` that `reg` lacks, looking at
/// request handlers, then the termination handler, then response handlers.
pub open spec fn chain_first_missing<Q, T, R>(reg: HandlerRegistry<Q, T, R>, pc: PathChainView) -> Option<u64> {
    match first_missing(names_or_empty(pc.request), reg.request_map().dom()) {
        Some(h) => Some(h),
        None => if !reg.termination_map().dom().contains(handler_id_of(pc.termination)) {
            Some(handler_id_of(pc.termination))
        } else {
            first_missing(names_or_empty(pc.response), reg.response_map().dom())
        },
    }
}

/// Whether each handler of `c` is a clone of the handler that `reg` holds
/// under the corresponding name of `pc`.
pub open spec fn chain_loaded<Q: Clone, T: Clone, R: Clone>(
    reg: HandlerRegistry<Q, T, R>,
    pc: PathChainView,
    c: LoadedChain<Q, T, R>,
) -> bool {
    let req = names_or_empty(pc.request);
    let resp = names_or_empty(pc.response);
    &&& c.request_spec().len() == req.len()
    &&& forall|i: int| 0 <= i < req.len() ==> cloned(reg.request_map()[handler_id_of(req[i])], #[trigger] c.request_spec()[i])
    &&& cloned(reg.termination_map()[handler_id_of(pc.termination)], c.termination_spec())
    &&& c.response_spec().len() == resp.len()
    &&& forall|i: int| 0 <= i < resp.len() ==> cloned(reg.response_map()[handler_id_of(resp[i])], #[trigger] c.response_spec()[i])
}

/// Whether `e` reports the handler identity `h` as missing from the registry.
pub open spec fn is_missing_handler_error(e: PathMatcherError, h: u64) -> bool {
    e matches PathMatcherError::HandlerRegistryError { source: HandlerRegistryError::MissingHandler { handler_id } }
        && handler_id@ == h
}

proof fn lemma_first_missing_skip(names: Seq<Seq<char>>, present: Set<u64>, i: int)
    requires
        0 <= i < names.len(),
        forall|j: int| 0 <= j < i ==> present.contains(handler_id_of(#[trigger] names[j])),
    ensures
        first_missing(names, present) == first_missing(names.skip(i), present),
    decreases i,
{
    if i > 0 {
        assert(present.contains(handler_id_of(names[0])));
        lemma_first_missing_skip(names.drop_first(), present, i - 1);
        assert(names.drop_first().skip(i - 1) =~= names.skip(i));
    } else {
        assert(names.skip(0) =~= names);
    }
}

proof fn lemma_first_missing_none(names: Seq<Seq<char>>, present: Set<u64>)
    requires
        forall|j: int| 0 <= j < names.len() ==> present.contains(handler_id_of(#[trigger] names[j])),
    ensures
        first_missing(names, present) is None,
    decreases names.len(),
{
    if names.len() > 0 {
        assert(present.contains(handler_id_of(names[0])));
        assert forall|j: int| 0 <= j < names.drop_first().len() implies present.contains(handler_id_of(#[trigger] names.drop_first()[j])) by {
            assert(names.drop_first()[j] == names[j + 1]);
        }
        lemma_first_missing_none(names.drop_first(), present);
    }
}

/// Loads each named request handler of `names` from the registry, in order.
fn load_request_handlers<Q: Clone, T, R>(
    reg: &HandlerRegistry<Q, T, R>,
    names: &Vec<String>,
) -> (r: Result<Vec<Q>, PathMatcherError>)
    requires
        reg.wf(),
    ensures
        match r {
            Ok(v) => first_missing(names_view(*names), reg.request_map().dom()) is None
                && v@.len() == names@.len()
                && forall|i: int| 0 <= i < names@.len() ==> cloned(
                    reg.request_map()[handler_id_of(names_view(*names)[i])],
                    #[trigger] v@[i],
                ),
            Err(e) => first_missing(names_view(*names), reg.request_map().dom()) matches Some(h)
                && is_missing_handler_error(e, h),
        },
{
    let mut loaded: Vec<Q> = Vec::new();
    let n = names.len();
    for i in 0..n
        invariant
            reg.wf(),
            n == names@.len(),
            loaded@.len() == i,
            forall|j: int| 0 <= j < i ==> reg.request_map().dom().contains(handler_id_of(#[trigger] names_view(*names)[j])),
            forall|j: int| 0 <= j < i ==> cloned(
                reg.request_map()[handler_id_of(names_view(*names)[j])],
                #[trigger] loaded@[j],
            ),
    {
        let id = HandlerId::new(names[i].as_str());
        match reg.get_request_handler(&id) {
            Ok(h) => {
                loaded.push(h);
            },
            Err(e) => {
                proof {
                    lemma_first_missing_skip(names_view(*names), reg.request_map().dom(), i as int);
                    assert(names_view(*names).skip(i as int)[0] == names_view(*names)[i as int]);
                }
                return Err(PathMatcherError::registry_error(e));
            },
        }
    }
    proof {
        lemma_first_missing_none(names_view(*names), reg.request_map().dom());
    }
    Ok(loaded)
}

/// Loads each named response handler of `names` from the registry, in order.
fn load_response_handlers<Q, T, R: Clone>(
    reg: &HandlerRegistry<Q, T, R>,
    names: &Vec<String>,
) -> (r: Result<Vec<R>, PathMatcherError>)
    requires
        reg.wf(),
    ensures
        match r {
            Ok(v) => first_missing(names_view(*names), reg.response_map().dom()) is None
                && v@.len() == names@.len()
                && forall|i: int| 0 <= i < names@.len() ==> cloned(
                    reg.response_map()[handler_id_of(names_view(*names)[i])],
                    #[trigger] v@[i],
                ),
            Err(e) => first_missing(names_view(*names), reg.response_map().dom()) matches Some(h)
                && is_missing_handler_error(e, h),
        },
{
    let mut loaded: Vec<R> = Vec::new();
    let n = names.len();
    for i in 0..n
        invariant
            reg.wf(),
            n == names@.len(),
            loaded@.len() == i,
            forall|j: int| 0 <= j < i ==> reg.response_map().dom().contains(handler_id_of(#[trigger] names_view(*names)[j])),
            forall|j: int| 0 <= j < i ==> cloned(
                reg.response_map()[handler_id_of(names_view(*names)[j])],
                #[trigger] loaded@[j],
            ),
    {
        let id = HandlerId::new(names[i].as_str());
        match reg.get_response_handler(&id) {
            Ok(h) => {
                loaded.push(h);
            },
            Err(e) => {
                proof {
                    lemma_first_missing_skip(names_view(*names), reg.response_map().dom(), i as int);
                    assert(names_view(*names).skip(i as int)[0] == names_view(*names)[i as int]);
                }
                return Err(PathMatcherError::registry_error(e));
            },
        }
    }
    proof {
        lemma_first_missing_none(names_view(*names), reg.response_map().dom());
    }
    Ok(loaded)
}

/// Matches route keys to loaded handler chains.
pub trait RouteKeyMatcher<Q: Clone, T: Clone, R: Clone>: Sized {
    /// The matcher's internal invariant.
    spec fn inv(&self) -> bool;

    /// Adds the routes of `route_config` to the matcher.
    fn parse_config(
        &mut self,
        route_config: &RouterConfig,
        handler_registry: &HandlerRegistry<Q, T, R>,
    ) -> (r: Result<(), PathMatcherError>)
        requires
            old(self).inv(),
            route_config.wf(),
            handler_registry.wf(),
        ensures
            final(self).inv(),
    ;

    /// The chain that serves `key`, if any.
    fn lookup(&self, key: RouteKey<'_>) -> Option<Arc<LoadedChain<Q, T, R>>>
        requires
            self.inv(),
    ;

    /// A matcher holding the routes of `config`.
    fn new(config: &RouterConfig, handler_registry: &HandlerRegistry<Q, T, R>) -> (r: Result<Self, PathMatcherError>)
        requires
            config.wf(),
            handler_registry.wf(),
        ensures
            r matches Ok(m) ==> m.inv(),
    ;

    /// Loads the handlers that `path_chain` names from the registry: request
    /// handlers, then the termination handler, then response handlers. The
    /// first name that the registry lacks is reported.
    fn load_handlers(
        handler_registry: &HandlerRegistry<Q, T, R>,
        path_chain: &PathChain,
    ) -> (r: Result<LoadedChain<Q, T, R>, PathMatcherError>)
        requires
            handler_registry.wf(),
        ensures
            r is Ok == chain_first_missing(*handler_registry, path_chain@) is None,
            r matches Ok(c) ==> chain_loaded(*handler_registry, path_chain@, c),
            r matches Err(e) ==> chain_first_missing(*handler_registry, path_chain@) matches Some(h)
                && is_missing_handler_error(e, h),
    {
        let loaded_request_handlers = match &path_chain.request_handlers {
            Some(request_handlers) => load_request_handlers(handler_registry, request_handlers)?,
            None => Vec::new(),
        };
        let termination_handler = match handler_registry.get_termination_handler(
            &HandlerId::new(path_chain.termination_handler.as_str()),
        ) {
            Ok(h) => h,
            Err(e) => {
                return Err(PathMatcherError::registry_error(e));
            },
        };
        let loaded_response_handlers = match &path_chain.response_handlers {
            Some(response_handlers) => load_response_handlers(handler_registry, response_handlers)?,
            None => Vec::new(),
        };
        Ok(LoadedChain::new(loaded_request_handlers, termination_handler, loaded_response_handlers))
    }
}

} // verus!
