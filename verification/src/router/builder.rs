//! Fluent builders for router configurations.
use vstd::prelude::*;
use crate::collections::{
    StrMap, StrSet, entries_get, entries_insert, has_key, keys_distinct, lemma_insert_distinct,
    lemma_insert_elements,
};
use crate::router::config::{
    PathChain, PathChainView, RouterConfig, names_view, paths_wf, push_name, push_names,
};

verus! {

/// The views of a slice of names.
pub open spec fn slice_names(s: &[&str]) -> Seq<Seq<char>> {
    s@.map_values(|x: &str| x@)
}

/// `items` after adding each of `names` that is not there yet, in order.
pub open spec fn insert_all(items: Seq<Seq<char>>, names: Seq<Seq<char>>) -> Seq<Seq<char>>
    decreases names.len(),
{
    if names.len() == 0 {
        items
    } else {
        let prev = insert_all(items, names.drop_last());
        if prev.contains(names.last()) {
            prev
        } else {
            prev.push(names.last())
        }
    }
}

/// 'Core' configuration data shared across builders.
pub struct ServiceConfigCore {
    /// Set of available handler names
    handlers: StrSet,
    /// Named handler chains
    chains: StrMap<Vec<String>>,
    /// Route mappings from paths to methods to path chains
    paths: StrMap<StrMap<PathChain>>,
}

/// The method table of `path` in `paths`, or an empty one.
pub open spec fn method_entries(
    paths: Seq<(Seq<char>, StrMap<PathChain>)>,
    path: Seq<char>,
) -> Seq<(Seq<char>, PathChain)> {
    match entries_get(paths, path) {
        Some(m) => m.entries(),
        None => Seq::empty(),
    }
}

/// The routes of a configuration, each path with its method entries.
pub open spec fn route_table_view(paths: Seq<(Seq<char>, StrMap<PathChain>)>) -> Seq<(Seq<char>, Seq<(Seq<char>, PathChain)>)> {
    paths.map_values(|e: (Seq<char>, StrMap<PathChain>)| (e.0, e.1.entries()))
}

/// The routes once `path` is sure to exist: unchanged where it is there,
/// otherwise with `path` added last, without methods.
pub open spec fn with_route(
    routes: Seq<(Seq<char>, Seq<(Seq<char>, PathChain)>)>,
    path: Seq<char>,
) -> Seq<(Seq<char>, Seq<(Seq<char>, PathChain)>)> {
    if has_key(routes, path) {
        routes
    } else {
        routes.push((path, Seq::empty()))
    }
}

proof fn lemma_route_table_keys(paths: Seq<(Seq<char>, StrMap<PathChain>)>, path: Seq<char>)
    ensures
        has_key(route_table_view(paths), path) == has_key(paths, path),
{
    let v = route_table_view(paths);
    if has_key(paths, path) {
        let i = choose|i: int| 0 <= i < paths.len() && paths[i].0 == path;
        assert(v[i].0 == path);
    }
    if has_key(v, path) {
        let i = choose|i: int| 0 <= i < v.len() && v[i].0 == path;
        assert(paths[i].0 == path);
    }
}

/// Making sure a path exists twice does what doing it once does.
pub proof fn lemma_with_route_idempotent(routes: Seq<(Seq<char>, Seq<(Seq<char>, PathChain)>)>, path: Seq<char>)
    ensures
        with_route(with_route(routes, path), path) == with_route(routes, path),
{
    let once = with_route(routes, path);
    if !has_key(routes, path) {
        assert(once[routes.len() as int].0 == path);
    }
    assert(has_key(once, path));
}

impl ServiceConfigCore {
    pub closed spec fn handlers_spec(&self) -> StrSet {
        self.handlers
    }

    pub closed spec fn chains_spec(&self) -> StrMap<Vec<String>> {
        self.chains
    }

    pub closed spec fn paths_spec(&self) -> StrMap<StrMap<PathChain>> {
        self.paths
    }

    pub open spec fn wf(&self) -> bool {
        &&& self.handlers_spec().wf()
        &&& self.chains_spec().wf()
        &&& paths_wf(self.paths_spec())
    }

    /// An empty configuration.
    pub fn new() -> (c: Self)
        ensures
            c.wf(),
            c.handlers_spec().items() == Seq::<Seq<char>>::empty(),
            c.chains_spec().entries() == Seq::<(Seq<char>, Vec<String>)>::empty(),
            c.paths_spec().entries() == Seq::<(Seq<char>, StrMap<PathChain>)>::empty(),
    {
        Self { handlers: StrSet::new(), chains: StrMap::new(), paths: StrMap::new() }
    }

    /// Add a single handler to the configuration.
    pub fn add_handler(&mut self, handler_name: &str)
        requires
            old(self).wf(),
        ensures
            final(self).wf(),
            final(self).handlers_spec().items() == insert_all(old(self).handlers_spec().items(), seq![handler_name@]),
            final(self).chains_spec() == old(self).chains_spec(),
            final(self).paths_spec() == old(self).paths_spec(),
    {
        self.handlers.insert(handler_name.to_owned());
        proof {
            assert(seq![handler_name@].drop_last() =~= Seq::<Seq<char>>::empty());
            reveal_with_fuel(insert_all, 2);
        }
    }

    /// Add multiple handlers to the configuration.
    pub fn add_handlers(&mut self, handler_names: &[&str])
        requires
            old(self).wf(),
        ensures
            final(self).wf(),
            final(self).handlers_spec().items() == insert_all(old(self).handlers_spec().items(), slice_names(handler_names)),
            final(self).chains_spec() == old(self).chains_spec(),
            final(self).paths_spec() == old(self).paths_spec(),
    {
        let n = handler_names.len();
        for i in 0..n
            invariant
                n == handler_names@.len(),
                self.wf(),
                self.handlers_spec().items() == insert_all(
                    old(self).handlers_spec().items(),
                    slice_names(handler_names).take(i as int),
                ),
                self.chains_spec() == old(self).chains_spec(),
                self.paths_spec() == old(self).paths_spec(),
        {
            self.handlers.insert(handler_names[i].to_owned());
            proof {
                assert(slice_names(handler_names).take(i + 1).drop_last()
                    =~= slice_names(handler_names).take(i as int));
            }
        }
        proof {
            assert(slice_names(handler_names).take(n as int) =~= slice_names(handler_names));
        }
    }

    /// Add a named handler chain to the configuration.
    pub fn add_chain(&mut self, chain_name: &str, handler_names: &[&str])
        requires
            old(self).wf(),
        ensures
            final(self).wf(),
            entries_get(final(self).chains_spec().entries(), chain_name@) matches Some(v) && names_view(v)
                == slice_names(handler_names) && final(self).chains_spec().entries() == entries_insert(
                old(self).chains_spec().entries(),
                chain_name@,
                v,
            ),
            final(self).handlers_spec() == old(self).handlers_spec(),
            final(self).paths_spec() == old(self).paths_spec(),
    {
        let mut chain: Vec<String> = Vec::new();
        let n = handler_names.len();
        for i in 0..n
            invariant
                n == handler_names@.len(),
                names_view(chain) == slice_names(handler_names).take(i as int),
        {
            let hs: &str = handler_names[i];
            proof {
                assert(hs == handler_names@[i as int]);
                assert(hs@ == slice_names(handler_names)[i as int]);
            }
            let h = hs.to_owned();
            let ghost before = chain@;
            chain.push(h);
            proof {
                assert(chain@ == before.push(h));
                assert(names_view(chain) =~= before.map_values(|s: String| s@).push(h@));
                assert(names_view(chain) =~= slice_names(handler_names).take(i + 1));
            }
        }
        proof {
            assert(slice_names(handler_names).take(n as int) =~= slice_names(handler_names));
            lemma_insert_distinct(self.chains.entries(), chain_name@, chain);
        }
        self.chains.insert(chain_name.to_owned(), chain);
    }

    /// Ensure a route path exists in the configuration.
    pub fn ensure_route_exists(&mut self, path: &str)
        requires
            old(self).wf(),
        ensures
            final(self).wf(),
            entries_get(final(self).paths_spec().entries(), path@) matches Some(m)
                && m.entries() == method_entries(old(self).paths_spec().entries(), path@)
                && final(self).paths_spec().entries() == entries_insert(old(self).paths_spec().entries(), path@, m),
            final(self).handlers_spec() == old(self).handlers_spec(),
            final(self).chains_spec() == old(self).chains_spec(),
            has_key(old(self).paths_spec().entries(), path@) ==> *final(self) == *old(self),
            route_table_view(final(self).paths_spec().entries())
                == with_route(route_table_view(old(self).paths_spec().entries()), path@),
    {
        let ghost old_paths = self.paths.entries();
        proof {
            lemma_route_table_keys(old_paths, path@);
        }
        if !self.paths.contains_key(path) {
            let m: StrMap<PathChain> = StrMap::new();
            proof {
                lemma_insert_distinct(old_paths, path@, m);
                lemma_insert_elements(old_paths, path@, m);
            }
            self.paths.insert(path.to_owned(), m);
        } else {
            proof {
                let i = crate::collections::key_index(old_paths, path@);
                let m = old_paths[i].1;
                assert(old_paths[i] == (path@, m));
                assert(entries_insert(old_paths, path@, m) =~= old_paths);
            }
        }
    }

    /// Add a method handler to a specific path.
    pub fn add_method(&mut self, path: &str, method: String, path_chain: PathChain)
        requires
            old(self).wf(),
        ensures
            final(self).wf(),
            entries_get(final(self).paths_spec().entries(), path@) matches Some(m)
                && m.entries() == entries_insert(method_entries(old(self).paths_spec().entries(), path@), method@, path_chain)
                && final(self).paths_spec().entries() == entries_insert(old(self).paths_spec().entries(), path@, m),
            final(self).handlers_spec() == old(self).handlers_spec(),
            final(self).chains_spec() == old(self).chains_spec(),
    {
        let ghost old_paths = self.paths.entries();
        proof {
            if has_key(old_paths, path@) {
                let i = crate::collections::key_index(old_paths, path@);
                assert(old_paths[i].1.wf());
            }
        }
        let inner = self.paths.value_mut(path, StrMap::new());
        proof {
            assert(inner.wf()) by {
                if !has_key(old_paths, path@) {
                    assert(keys_distinct(Seq::<(Seq<char>, PathChain)>::empty()));
                }
            }
        }
        inner.insert(method, path_chain);
        proof {
            let fin = self.paths.entries();
            let m = *inner;
            assert(fin == entries_insert(old_paths, path@, m));
            lemma_insert_distinct(old_paths, path@, m);
            lemma_insert_elements(old_paths, path@, m);
            assert forall|j: int| 0 <= j < fin.len() implies (#[trigger] fin[j]).1.wf() by {
                assert(fin[j] == (path@, m) || (j < old_paths.len() && fin[j] == old_paths[j]));
            }
        }
    }

    /// Build the final router configuration.
    pub fn build(self) -> (c: RouterConfig)
        requires
            self.wf(),
        ensures
            c.wf(),
            c.handlers == self.handlers_spec(),
            c.chains == self.chains_spec(),
            c.paths == self.paths_spec(),
    {
        RouterConfig { handlers: self.handlers, chains: self.chains, paths: self.paths }
    }
}

/// Service-level configuration builders.
pub trait ServiceBuilder: Sized {
    /// The route builder type for this service builder
    type RouteBuilder;

    /// The core configuration held by the builder.
    spec fn core_spec(&self) -> ServiceConfigCore;

    /// The builder with its core replaced.
    spec fn with_core_spec(self, core: ServiceConfigCore) -> Self;

    /// Whether `r` is the route builder that `self.route(path)` returns.
    spec fn is_route_builder_for(self, r: Self::RouteBuilder, path: Seq<char>) -> bool;

    proof fn lemma_with_core(self, core: ServiceConfigCore)
        ensures
            self.with_core_spec(core).core_spec() == core,
            self.with_core_spec(self.core_spec()) == self,
            forall|c2: ServiceConfigCore| #[trigger] self.with_core_spec(core).with_core_spec(c2) == self.with_core_spec(c2),
    ;

    /// Mutable access to the core configuration.
    fn service_core(&mut self) -> (c: &mut ServiceConfigCore)
        ensures
            *c == old(self).core_spec(),
            *final(self) == old(self).with_core_spec(*final(c)),
    ;

    /// Add a single handler to the service.
    fn handler(self, handler_name: &str) -> (r: Self)
        requires
            self.core_spec().wf(),
        ensures
            r == self.with_core_spec(r.core_spec()),
            r.core_spec().wf(),
            r.core_spec().handlers_spec().items() == insert_all(self.core_spec().handlers_spec().items(), seq![handler_name@]),
            r.core_spec().chains_spec() == self.core_spec().chains_spec(),
            r.core_spec().paths_spec() == self.core_spec().paths_spec(),
    {
        let mut s = self;
        let c = s.service_core();
        c.add_handler(handler_name);
        proof {
            self.lemma_with_core(*c);
        }
        s
    }

    /// Add multiple handlers to the service.
    fn handlers(self, handler_names: &[&str]) -> (r: Self)
        requires
            self.core_spec().wf(),
        ensures
            r == self.with_core_spec(r.core_spec()),
            r.core_spec().wf(),
            r.core_spec().handlers_spec().items() == insert_all(self.core_spec().handlers_spec().items(), slice_names(handler_names)),
            r.core_spec().chains_spec() == self.core_spec().chains_spec(),
            r.core_spec().paths_spec() == self.core_spec().paths_spec(),
    {
        let mut s = self;
        let c = s.service_core();
        c.add_handlers(handler_names);
        proof {
            self.lemma_with_core(*c);
        }
        s
    }

    /// Add a named handler chain to the service.
    fn chain(self, chain_name: &str, handler_names: &[&str]) -> (r: Self)
        requires
            self.core_spec().wf(),
        ensures
            r == self.with_core_spec(r.core_spec()),
            r.core_spec().wf(),
            entries_get(r.core_spec().chains_spec().entries(), chain_name@) matches Some(v) && names_view(v)
                == slice_names(handler_names) && r.core_spec().chains_spec().entries() == entries_insert(
                self.core_spec().chains_spec().entries(),
                chain_name@,
                v,
            ),
            r.core_spec().handlers_spec() == self.core_spec().handlers_spec(),
            r.core_spec().paths_spec() == self.core_spec().paths_spec(),
    {
        let mut s = self;
        let c = s.service_core();
        c.add_chain(chain_name, handler_names);
        proof {
            self.lemma_with_core(*c);
        }
        s
    }

    /// Start building a route configuration.
    fn route(self, path: &str) -> (r: Self::RouteBuilder)
        requires
            self.core_spec().wf(),
        ensures
            self.is_route_builder_for(r, path@),
    ;
}

/// Route-level configuration builders.
pub trait RouteBuilder: Sized {
    /// The method builder type for this route builder
    type MethodBuilder;
    /// The parent service builder type
    type ServiceBuilder;

    /// Whether `r` is the method builder that `self.create_method_builder(method)` returns.
    spec fn is_method_builder_for(self, r: Self::MethodBuilder, method: Seq<char>) -> bool;

    /// Whether `r` is the service builder that `self.end_route()` returns.
    spec fn is_end_of_route(self, r: Self::ServiceBuilder) -> bool;

    /// Create a method builder for a specific HTTP method.
    fn create_method_builder(self, method: &str) -> (r: Self::MethodBuilder)
        ensures
            self.is_method_builder_for(r, method@),
    ;

    /// Finish configuring this route and return to the service builder.
    fn end_route(self) -> (r: Self::ServiceBuilder)
        ensures
            self.is_end_of_route(r),
    ;

    /// Configure the HEAD method for this route.
    fn head(self) -> (r: Self::MethodBuilder)
        ensures
            self.is_method_builder_for(r, "HEAD"@),
    {
        self.create_method_builder("HEAD")
    }

    /// Configure the OPTIONS method for this route.
    fn options(self) -> (r: Self::MethodBuilder)
        ensures
            self.is_method_builder_for(r, "OPTIONS"@),
    {
        self.create_method_builder("OPTIONS")
    }

    /// Configure the GET method for this route.
    fn get(self) -> (r: Self::MethodBuilder)
        ensures
            self.is_method_builder_for(r, "GET"@),
    {
        self.create_method_builder("GET")
    }

    /// Configure the POST method for this route.
    fn post(self) -> (r: Self::MethodBuilder)
        ensures
            self.is_method_builder_for(r, "POST"@),
    {
        self.create_method_builder("POST")
    }

    /// Configure the PUT method for this route.
    fn put(self) -> (r: Self::MethodBuilder)
        ensures
            self.is_method_builder_for(r, "PUT"@),
    {
        self.create_method_builder("PUT")
    }

    /// Configure the DELETE method for this route.
    fn delete(self) -> (r: Self::MethodBuilder)
        ensures
            self.is_method_builder_for(r, "DELETE"@),
    {
        self.create_method_builder("DELETE")
    }

    /// Configure the PATCH method for this route.
    fn patch(self) -> (r: Self::MethodBuilder)
        ensures
            self.is_method_builder_for(r, "PATCH"@),
    {
        self.create_method_builder("PATCH")
    }
}

/// Method-level configuration builders.
pub trait MethodBuilder: Sized {
    /// The parent route builder type
    type RouteBuilder;

    /// The path chain being built.
    spec fn chain_spec(&self) -> PathChain;

    /// The named chains available to this builder.
    spec fn chains_spec(&self) -> StrMap<Vec<String>>;

    /// The builder with its path chain replaced.
    spec fn with_chain_spec(self, chain: PathChain) -> Self;

    /// Whether `r` is the route builder that `self.end_method()` returns.
    spec fn is_end_of_method(self, r: Self::RouteBuilder) -> bool;

    /// Whether the builder can finish its method.
    spec fn ready(&self) -> bool;

    proof fn lemma_with_chain(self, chain: PathChain)
        ensures
            self.with_chain_spec(chain).chain_spec() == chain,
            self.with_chain_spec(chain).chains_spec() == self.chains_spec(),
            self.with_chain_spec(self.chain_spec()) == self,
            self.with_chain_spec(chain).ready() == self.ready(),
            forall|c2: PathChain| #[trigger] self.with_chain_spec(chain).with_chain_spec(c2) == self.with_chain_spec(c2),
    ;

    /// Mutable access to the path chain being built.
    fn path_chain(&mut self) -> (c: &mut PathChain)
        ensures
            *c == old(self).chain_spec(),
            *final(self) == old(self).with_chain_spec(*final(c)),
    ;

    /// The available handler chains.
    fn chains(&self) -> (c: &StrMap<Vec<String>>)
        ensures
            *c == self.chains_spec(),
    ;

    /// Add several request handlers, in order.
    fn request_handlers(self, handlers: &[&str]) -> (r: Self)
        ensures
            r == self.with_chain_spec(r.chain_spec()),
            r.chain_spec()@ == (PathChainView {
                request: push_names(self.chain_spec()@.request, slice_names(handlers)),
                ..self.chain_spec()@
            }),
    {
        let mut s = self;
        let n = handlers.len();
        proof {
            s.lemma_with_chain(s.chain_spec());
            assert(slice_names(handlers).take(0) =~= Seq::<Seq<char>>::empty());
        }
        for i in 0..n
            invariant
                n == handlers@.len(),
                s == self.with_chain_spec(s.chain_spec()),
                s.chain_spec()@ == (PathChainView {
                    request: push_names(self.chain_spec()@.request, slice_names(handlers).take(i as int)),
                    ..self.chain_spec()@
                }),
        {
            let hs: &str = handlers[i];
            proof {
                assert(hs@ == slice_names(handlers)[i as int]);
            }
            let ghost prev = s.chain_spec();
            let c = s.path_chain();
            c.add_request_handler(hs.to_owned());
            proof {
                self.lemma_with_chain(prev);
                self.lemma_with_chain(*c);
                assert(slice_names(handlers).take(i + 1).drop_last() =~= slice_names(handlers).take(i as int));
            }
        }
        proof {
            assert(slice_names(handlers).take(n as int) =~= slice_names(handlers));
        }
        s
    }

    /// Add a single request handler.
    fn request_handler(self, handler: &str) -> (r: Self)
        ensures
            r == self.with_chain_spec(r.chain_spec()),
            r.chain_spec()@ == (PathChainView {
                request: push_name(self.chain_spec()@.request, handler@),
                ..self.chain_spec()@
            }),
    {
        let mut s = self;
        let c = s.path_chain();
        c.add_request_handler(handler.to_owned());
        proof {
            self.lemma_with_chain(*c);
        }
        s
    }

    /// Set the termination handler.
    fn termination_handler(self, handler: &str) -> (r: Self)
        ensures
            r == self.with_chain_spec(r.chain_spec()),
            r.chain_spec()@ == (PathChainView { termination: handler@, ..self.chain_spec()@ }),
    {
        let mut s = self;
        let c = s.path_chain();
        c.termination_handler(handler.to_owned());
        proof {
            self.lemma_with_chain(*c);
        }
        s
    }

    /// Add several response handlers, in order.
    fn response_handlers(self, handlers: &[&str]) -> (r: Self)
        ensures
            r == self.with_chain_spec(r.chain_spec()),
            r.chain_spec()@ == (PathChainView {
                response: push_names(self.chain_spec()@.response, slice_names(handlers)),
                ..self.chain_spec()@
            }),
    {
        let mut s = self;
        let n = handlers.len();
        proof {
            s.lemma_with_chain(s.chain_spec());
            assert(slice_names(handlers).take(0) =~= Seq::<Seq<char>>::empty());
        }
        for i in 0..n
            invariant
                n == handlers@.len(),
                s == self.with_chain_spec(s.chain_spec()),
                s.chain_spec()@ == (PathChainView {
                    response: push_names(self.chain_spec()@.response, slice_names(handlers).take(i as int)),
                    ..self.chain_spec()@
                }),
        {
            let hs: &str = handlers[i];
            proof {
                assert(hs@ == slice_names(handlers)[i as int]);
            }
            let ghost prev = s.chain_spec();
            let c = s.path_chain();
            c.add_response_handler(hs.to_owned());
            proof {
                self.lemma_with_chain(prev);
                self.lemma_with_chain(*c);
                assert(slice_names(handlers).take(i + 1).drop_last() =~= slice_names(handlers).take(i as int));
            }
        }
        proof {
            assert(slice_names(handlers).take(n as int) =~= slice_names(handlers));
        }
        s
    }

    /// Add a single response handler.
    fn response_handler(self, handler: &str) -> (r: Self)
        ensures
            r == self.with_chain_spec(r.chain_spec()),
            r.chain_spec()@ == (PathChainView {
                response: push_name(self.chain_spec()@.response, handler@),
                ..self.chain_spec()@
            }),
    {
        let mut s = self;
        let c = s.path_chain();
        c.add_response_handler(handler.to_owned());
        proof {
            self.lemma_with_chain(*c);
        }
        s
    }

    /// Append the handlers of a named chain to the request phase; an unknown
    /// chain name leaves the builder unchanged.
    fn request_chain(self, chain_name: &str) -> (r: Self)
        requires
            self.chains_spec().wf(),
        ensures
            r == self.with_chain_spec(r.chain_spec()),
            r.chain_spec()@ == (match entries_get(self.chains_spec().entries(), chain_name@) {
                Some(v) => PathChainView {
                    request: push_names(self.chain_spec()@.request, names_view(v)),
                    ..self.chain_spec()@
                },
                None => self.chain_spec()@,
            }),
    {
        let mut s = self;
        proof {
            s.lemma_with_chain(s.chain_spec());
        }
        let found = match s.chains().get(chain_name) {
            Some(v) => Some(v.clone()),
            None => None,
        };
        match found {
            Some(handlers) => {
                let n = handlers.len();
                proof {
                    assert(names_view(handlers).take(0) =~= Seq::<Seq<char>>::empty());
                }
                for i in 0..n
                    invariant
                        n == handlers@.len(),
                        s == self.with_chain_spec(s.chain_spec()),
                        s.chain_spec()@ == (PathChainView {
                            request: push_names(self.chain_spec()@.request, names_view(handlers).take(i as int)),
                            ..self.chain_spec()@
                        }),
                {
                    let h = handlers[i].clone();
                    proof {
                        assert(h@ == names_view(handlers)[i as int]);
                    }
                    let ghost prev = s.chain_spec();
                    let c = s.path_chain();
                    c.add_request_handler(h);
                    proof {
                        self.lemma_with_chain(prev);
                        self.lemma_with_chain(*c);
                        assert(names_view(handlers).take(i + 1).drop_last() =~= names_view(handlers).take(i as int));
                    }
                }
                proof {
                    assert(names_view(handlers).take(n as int) =~= names_view(handlers));
                }
            },
            None => {},
        }
        s
    }

    /// Append the handlers of a named chain to the response phase; an unknown
    /// chain name leaves the builder unchanged.
    fn response_chain(self, chain_name: &str) -> (r: Self)
        requires
            self.chains_spec().wf(),
        ensures
            r == self.with_chain_spec(r.chain_spec()),
            r.chain_spec()@ == (match entries_get(self.chains_spec().entries(), chain_name@) {
                Some(v) => PathChainView {
                    response: push_names(self.chain_spec()@.response, names_view(v)),
                    ..self.chain_spec()@
                },
                None => self.chain_spec()@,
            }),
    {
        let mut s = self;
        proof {
            s.lemma_with_chain(s.chain_spec());
        }
        let found = match s.chains().get(chain_name) {
            Some(v) => Some(v.clone()),
            None => None,
        };
        match found {
            Some(handlers) => {
                let n = handlers.len();
                proof {
                    assert(names_view(handlers).take(0) =~= Seq::<Seq<char>>::empty());
                }
                for i in 0..n
                    invariant
                        n == handlers@.len(),
                        s == self.with_chain_spec(s.chain_spec()),
                        s.chain_spec()@ == (PathChainView {
                            response: push_names(self.chain_spec()@.response, names_view(handlers).take(i as int)),
                            ..self.chain_spec()@
                        }),
                {
                    let h = handlers[i].clone();
                    proof {
                        assert(h@ == names_view(handlers)[i as int]);
                    }
                    let ghost prev = s.chain_spec();
                    let c = s.path_chain();
                    c.add_response_handler(h);
                    proof {
                        self.lemma_with_chain(prev);
                        self.lemma_with_chain(*c);
                        assert(names_view(handlers).take(i + 1).drop_last() =~= names_view(handlers).take(i as int));
                    }
                }
                proof {
                    assert(names_view(handlers).take(n as int) =~= names_view(handlers));
                }
            },
            None => {},
        }
        s
    }

    /// Finish configuring this method and return to the route builder.
    fn end_method(self) -> (r: Self::RouteBuilder)
        requires
            self.ready(),
        ensures
            self.is_end_of_method(r),
    ;
}

/// Builder for single service configurations.
pub struct SingleServiceConfigBuilder {
    /// Core configuration being built
    core: ServiceConfigCore,
}

impl SingleServiceConfigBuilder {
    pub closed spec fn core_view(&self) -> ServiceConfigCore {
        self.core
    }

    pub closed spec fn from_core(core: ServiceConfigCore) -> Self {
        SingleServiceConfigBuilder { core }
    }

    pub proof fn lemma_core_view(self, core: ServiceConfigCore)
        ensures
            Self::from_core(core).core_view() == core,
            Self::from_core(self.core_view()) == self,
    {
    }

    /// Create a new single service configuration builder.
    pub fn new() -> (b: Self)
        ensures
            b.core_spec().wf(),
            b.core_spec().handlers_spec().items() == Seq::<Seq<char>>::empty(),
            b.core_spec().chains_spec().entries() == Seq::<(Seq<char>, Vec<String>)>::empty(),
            b.core_spec().paths_spec().entries() == Seq::<(Seq<char>, StrMap<PathChain>)>::empty(),
    {
        SingleServiceConfigBuilder { core: ServiceConfigCore::new() }
    }

    /// Build the final router configuration.
    pub fn build(self) -> (c: RouterConfig)
        requires
            self.core_spec().wf(),
        ensures
            c.wf(),
            c.handlers == self.core_spec().handlers_spec(),
            c.chains == self.core_spec().chains_spec(),
            c.paths == self.core_spec().paths_spec(),
    {
        self.core.build()
    }
}

impl ServiceBuilder for SingleServiceConfigBuilder {
    type RouteBuilder = SingleServiceRouteBuilder;

    open spec fn core_spec(&self) -> ServiceConfigCore {
        self.core_view()
    }

    open spec fn with_core_spec(self, core: ServiceConfigCore) -> Self {
        SingleServiceConfigBuilder::from_core(core)
    }

    open spec fn is_route_builder_for(self, r: SingleServiceRouteBuilder, path: Seq<char>) -> bool {
        &&& r.path_spec() == path
        &&& r.core_spec().wf()
        &&& r.core_spec().handlers_spec() == self.core_view().handlers_spec()
        &&& r.core_spec().chains_spec() == self.core_view().chains_spec()
        &&& entries_get(r.core_spec().paths_spec().entries(), path) matches Some(m)
            && m.entries() == method_entries(self.core_view().paths_spec().entries(), path)
            && r.core_spec().paths_spec().entries() == entries_insert(self.core_view().paths_spec().entries(), path, m)
    }

    proof fn lemma_with_core(self, core: ServiceConfigCore) {
        self.lemma_core_view(core);
        assert forall|c2: ServiceConfigCore| #[trigger] self.with_core_spec(core).with_core_spec(c2) == self.with_core_spec(c2) by {
        }
    }

    fn service_core(&mut self) -> (c: &mut ServiceConfigCore) {
        &mut self.core
    }

    fn route(self, path: &str) -> (r: SingleServiceRouteBuilder) {
        let mut s = self;
        s.core.ensure_route_exists(path);
        SingleServiceRouteBuilder { config_builder: s, current_path: path.to_owned() }
    }
}

/// Route builder for single service configurations.
pub struct SingleServiceRouteBuilder {
    /// Parent configuration builder
    config_builder: SingleServiceConfigBuilder,
    /// Path being configured
    current_path: String,
}

impl SingleServiceRouteBuilder {
    /// The configuration built so far.
    pub closed spec fn core_spec(&self) -> ServiceConfigCore {
        self.config_builder.core
    }

    /// The path being configured.
    pub closed spec fn path_spec(&self) -> Seq<char> {
        self.current_path@
    }

    /// The service builder this route belongs to.
    pub closed spec fn builder_spec(&self) -> SingleServiceConfigBuilder {
        self.config_builder
    }
}

impl RouteBuilder for SingleServiceRouteBuilder {
    type MethodBuilder = SingleServiceMethodBuilder;
    type ServiceBuilder = SingleServiceConfigBuilder;

    open spec fn is_method_builder_for(self, r: SingleServiceMethodBuilder, method: Seq<char>) -> bool {
        &&& r.route_builder_spec() == self
        &&& r.method_spec() == method
        &&& r.chain_view()@.request is None
        &&& r.chain_view()@.termination == "default"@
        &&& r.chain_view()@.response is None
    }

    open spec fn is_end_of_route(self, r: SingleServiceConfigBuilder) -> bool {
        r == self.builder_spec()
    }

    fn create_method_builder(self, method: &str) -> (r: SingleServiceMethodBuilder) {
        SingleServiceMethodBuilder { route_builder: self, method: method.to_owned(), path_chain: PathChain::new() }
    }

    fn end_route(self) -> (r: SingleServiceConfigBuilder) {
        self.config_builder
    }
}

/// Method builder for single service configurations.
pub struct SingleServiceMethodBuilder {
    /// Parent route builder
    route_builder: SingleServiceRouteBuilder,
    /// HTTP method being configured
    method: String,
    /// Path chain being built
    path_chain: PathChain,
}

impl SingleServiceMethodBuilder {
    pub closed spec fn route_builder_spec(&self) -> SingleServiceRouteBuilder {
        self.route_builder
    }

    pub closed spec fn method_spec(&self) -> Seq<char> {
        self.method@
    }

    pub closed spec fn chain_view(&self) -> PathChain {
        self.path_chain
    }

    pub closed spec fn with_chain_view(self, chain: PathChain) -> Self {
        SingleServiceMethodBuilder { path_chain: chain, ..self }
    }

    pub proof fn lemma_chain_view(self, chain: PathChain)
        ensures
            self.with_chain_view(chain).chain_view() == chain,
            self.with_chain_view(chain).route_builder_spec() == self.route_builder_spec(),
            self.with_chain_view(chain).method_spec() == self.method_spec(),
            self.with_chain_view(self.chain_view()) == self,
            forall|c2: PathChain| #[trigger] self.with_chain_view(chain).with_chain_view(c2) == self.with_chain_view(c2),
    {
    }
}

impl MethodBuilder for SingleServiceMethodBuilder {
    type RouteBuilder = SingleServiceRouteBuilder;

    open spec fn chain_spec(&self) -> PathChain {
        self.chain_view()
    }

    open spec fn chains_spec(&self) -> StrMap<Vec<String>> {
        self.route_builder_spec().core_spec().chains_spec()
    }

    open spec fn with_chain_spec(self, chain: PathChain) -> Self {
        self.with_chain_view(chain)
    }

    open spec fn ready(&self) -> bool {
        self.route_builder_spec().core_spec().wf()
    }

    open spec fn is_end_of_method(self, r: SingleServiceRouteBuilder) -> bool {
        let rb = self.route_builder_spec();
        &&& r.path_spec() == rb.path_spec()
        &&& r.core_spec().wf()
        &&& r.core_spec().handlers_spec() == rb.core_spec().handlers_spec()
        &&& r.core_spec().chains_spec() == rb.core_spec().chains_spec()
        &&& entries_get(r.core_spec().paths_spec().entries(), rb.path_spec()) matches Some(m)
            && m.entries() == entries_insert(
                method_entries(rb.core_spec().paths_spec().entries(), rb.path_spec()),
                self.method_spec(),
                self.chain_view(),
            )
            && r.core_spec().paths_spec().entries() == entries_insert(
                rb.core_spec().paths_spec().entries(),
                rb.path_spec(),
                m,
            )
    }

    proof fn lemma_with_chain(self, chain: PathChain) {
        self.lemma_chain_view(chain);
        let w = self.with_chain_view(chain);
        assert(self.with_chain_spec(chain) == w);
        assert(w.route_builder_spec() == self.route_builder_spec());
        assert(w.chains_spec() == w.route_builder_spec().core_spec().chains_spec());
        assert(w.chains_spec() == self.chains_spec());
        assert(w.ready() == self.ready());
    }

    fn path_chain(&mut self) -> (c: &mut PathChain) {
        &mut self.path_chain
    }

    fn chains(&self) -> (c: &StrMap<Vec<String>>) {
        &self.route_builder.config_builder.core.chains
    }

    fn end_method(self) -> (r: SingleServiceRouteBuilder) {
        let mut route_builder = self.route_builder;
        route_builder.config_builder.core.add_method(route_builder.current_path.as_str(), self.method, self.path_chain);
        route_builder
    }
}

} // verus!
