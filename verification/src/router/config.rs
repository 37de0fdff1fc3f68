//! Router configuration: which handlers exist, named chains, and for each
//! path and method the chain of handlers that serves it.
use vstd::prelude::*;
use crate::collections::{StrMap, StrSet, keys_distinct};

verus! {

/// The handler names of one route, by phase.
pub ghost struct PathChainView {
    pub request: Option<Seq<Seq<char>>>,
    pub termination: Seq<char>,
    pub response: Option<Seq<Seq<char>>>,
}

/// Handler chain definition for a specific route: request handlers, the
/// termination handler that produces the response, and response handlers.
pub struct PathChain {
    pub request_handlers: Option<Vec<String>>,
    pub termination_handler: String,
    pub response_handlers: Option<Vec<String>>,
}

/// A list of names by their views.
pub open spec fn names_view(v: Vec<String>) -> Seq<Seq<char>> {
    v@.map_values(|s: String| s@)
}

/// The names of an optional list, by their views.
pub open spec fn opt_names_view(v: Option<Vec<String>>) -> Option<Seq<Seq<char>>> {
    match v {
        Some(v) => Some(names_view(v)),
        None => None,
    }
}

/// Appends `h` to an optional list of names, creating the list if needed.
pub open spec fn push_name(v: Option<Seq<Seq<char>>>, h: Seq<char>) -> Option<Seq<Seq<char>>> {
    match v {
        Some(s) => Some(s.push(h)),
        None => Some(seq![h]),
    }
}

/// Appends every name of `hs`, in order.
pub open spec fn push_names(v: Option<Seq<Seq<char>>>, hs: Seq<Seq<char>>) -> Option<Seq<Seq<char>>>
    decreases hs.len(),
{
    if hs.len() == 0 {
        v
    } else {
        push_name(push_names(v, hs.drop_last()), hs.last())
    }
}

impl View for PathChain {
    type V = PathChainView;

    open spec fn view(&self) -> PathChainView {
        PathChainView {
            request: opt_names_view(self.request_handlers),
            termination: self.termination_handler@,
            response: opt_names_view(self.response_handlers),
        }
    }
}

impl PathChain {
    /// A chain with no request or response handlers and the termination
    /// handler named `default`.
    pub fn new() -> (c: Self)
        ensures
            c@.request is None,
            c@.termination == "default"@,
            c@.response is None,
    {
        Self { request_handlers: None, termination_handler: "default".to_owned(), response_handlers: None }
    }

    /// Adds a handler at the end of the request phase.
    pub(crate) fn add_request_handler(&mut self, handler: String)
        ensures
            final(self)@ == (PathChainView { request: push_name(old(self)@.request, handler@), ..old(self)@ }),
    {
        match self.request_handlers.take() {
            Some(mut v) => {
                v.push(handler);
                proof {
                    assert(names_view(v) =~= names_view(old(self).request_handlers.unwrap()).push(handler@));
                }
                self.request_handlers = Some(v);
            },
            None => {
                let mut v = Vec::new();
                v.push(handler);
                proof {
                    assert(names_view(v) =~= seq![handler@]);
                }
                self.request_handlers = Some(v);
            },
        }
    }

    /// Sets the termination handler.
    pub(crate) fn termination_handler(&mut self, handler: String)
        ensures
            final(self)@ == (PathChainView { termination: handler@, ..old(self)@ }),
    {
        self.termination_handler = handler;
    }

    /// Adds a handler at the end of the response phase.
    pub(crate) fn add_response_handler(&mut self, handler: String)
        ensures
            final(self)@ == (PathChainView { response: push_name(old(self)@.response, handler@), ..old(self)@ }),
    {
        match self.response_handlers.take() {
            Some(mut v) => {
                v.push(handler);
                proof {
                    assert(names_view(v) =~= names_view(old(self).response_handlers.unwrap()).push(handler@));
                }
                self.response_handlers = Some(v);
            },
            None => {
                let mut v = Vec::new();
                v.push(handler);
                proof {
                    assert(names_view(v) =~= seq![handler@]);
                }
                self.response_handlers = Some(v);
            },
        }
    }
}

/// Main router configuration.
pub struct RouterConfig {
    /// All handler names available for routing.
    pub handlers: StrSet,
    /// Named handler chains.
    pub chains: StrMap<Vec<String>>,
    /// For each path, the chain of each method.
    pub paths: StrMap<StrMap<PathChain>>,
}

/// Every method table of a path table has distinct keys.
pub open spec fn paths_wf(paths: StrMap<StrMap<PathChain>>) -> bool {
    &&& paths.wf()
    &&& forall|i: int| 0 <= i < paths.entries().len() ==> (#[trigger] paths.entries()[i]).1.wf()
}

impl RouterConfig {
    pub open spec fn wf(&self) -> bool {
        &&& self.handlers.wf()
        &&& self.chains.wf()
        &&& paths_wf(self.paths)
    }
}

} // verus!
