//! A catalog of handlers by name, with the configurations of two sample
//! handlers.
use vstd::prelude::*;
use crate::collections::{StrMap, entries_insert};

verus! {

broadcast use vstd::string::group_string_axioms;

/// Marker for handler configurations.
pub trait Config {}

/// The configuration of the first sample handler.
#[derive(Debug)]
pub struct HandlerConfig1 {
    pub prop1: String,
    pub prop2: bool,
}

impl Config for HandlerConfig1 {}

/// The first sample handler.
pub struct Handler1 {
    pub config: HandlerConfig1,
}

impl Handler1 {
    /// The name the handler is registered under.
    pub fn handler_id() -> (r: &'static str)
        ensures
            r@ == "Handler1"@,
    {
        "Handler1"
    }
}

/// The configuration of the second sample handler.
#[derive(Debug)]
pub struct HandlerConfig2 {
    pub some_prop: u64,
    pub some_other_prop: String,
}

impl Config for HandlerConfig2 {}

/// The second sample handler.
pub struct Handler2 {
    pub config: HandlerConfig2,
}

impl Handler2 {
    /// The name the handler is registered under.
    pub fn handler_id() -> (r: &'static str)
        ensures
            r@ == "Handler2"@,
    {
        "Handler2"
    }
}

/// Handlers by name.
pub struct HandlerRegistry<H> {
    handlers: StrMap<H>,
}

impl<H> HandlerRegistry<H> {
    /// The handlers, by name, in registration order.
    pub closed spec fn handlers_spec(&self) -> StrMap<H> {
        self.handlers
    }

    pub open spec fn wf(&self) -> bool {
        self.handlers_spec().wf()
    }

    /// An empty registry.
    pub fn new() -> (r: Self)
        ensures
            r.wf(),
            r.handlers_spec().entries().len() == 0,
    {
        HandlerRegistry { handlers: StrMap::new() }
    }

    /// Registers `handler` under `id`, replacing any handler of that name.
    pub fn register_handler(&mut self, id: String, handler: H)
        requires
            old(self).wf(),
        ensures
            final(self).wf(),
            final(self).handlers_spec().entries() == entries_insert(old(self).handlers_spec().entries(), id@, handler),
    {
        self.handlers.insert(id, handler);
    }

    /// The handler registered under `id`.
    pub fn get_handler(&self, id: &str) -> (r: Option<&H>)
        requires
            self.wf(),
        ensures
            r.is_some() == self.handlers_spec().contains_spec(id@),
            r matches Some(h) ==> self.handlers_spec().get_spec(id@) == Some(*h),
    {
        self.handlers.get(id)
    }
}

} // verus!
