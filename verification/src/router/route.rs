//! The key that a request is routed by.
use vstd::prelude::*;

verus! {

/// Path and method of a request; either may be missing.
pub struct RouteKey<'a> {
    pub path: Option<&'a str>,
    pub method: Option<&'a str>,
}

impl<'a> Default for RouteKey<'a> {
    /// A key with neither part.
    fn default() -> (k: Self)
        ensures
            k.path is None,
            k.method is None,
    {
        RouteKey { path: None, method: None }
    }
}

impl<'a> RouteKey<'a> {
    /// A key with both parts present.
    pub fn new(path: &'a str, method: &'a str) -> (k: Self)
        ensures
            k.path == Some(path),
            k.method == Some(method),
    {
        Self { path: Some(path), method: Some(method) }
    }

    /// The same key with its method set.
    pub fn with_method(self, method: &'a str) -> (k: Self)
        ensures
            k.path == self.path,
            k.method == Some(method),
    {
        RouteKey { path: self.path, method: Some(method) }
    }

    /// The same key with its path set.
    pub fn with_path(self, path: &'a str) -> (k: Self)
        ensures
            k.path == Some(path),
            k.method == self.method,
    {
        RouteKey { path: Some(path), method: self.method }
    }

    /// A key from a `(path, method)` pair.
    pub fn from_pair(value: (&'a str, &'a str)) -> (k: Self)
        ensures
            k.path == Some(value.0),
            k.method == Some(value.1),
    {
        RouteKey::new(value.0, value.1)
    }
}

impl<'a> From<(&'a str, &'a str)> for RouteKey<'a> {
    /// A key from a `(path, method)` pair.
    fn from(value: (&'a str, &'a str)) -> (r: Self) {
        RouteKey::new(value.0, value.1)
    }
}

impl<'a> vstd::std_specs::convert::FromSpecImpl<(&'a str, &'a str)> for RouteKey<'a> {
    open spec fn obeys_from_spec() -> bool {
        true
    }

    open spec fn from_spec(v: (&'a str, &'a str)) -> Self {
        RouteKey { path: Some(v.0), method: Some(v.1) }
    }
}

/// Extracts the routing key from a request; implemented by users of the
/// router for their request type.
pub trait RouteKeyParser<I> {
    fn as_route_key<'a>(&self, request: &'a I) -> RouteKey<'a>;
}

} // verus!
