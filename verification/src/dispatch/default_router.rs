//! The default router: the route table built from a configuration, the
//! registered handlers and the named chains, and the decisions taken while
//! the executables of a route run.
use vstd::prelude::*;
use std::sync::Arc;
use crate::collections::{StrMap, entries_get, entries_insert, has_key};
use crate::dispatch::{
    ChainId, ExecView, Executable, HandlerId, PatSeg, PathConfig, PathSegment, RouteInfo,
    RouterConfig, exec_views, pat_seg_of, pat_views,
};
use crate::dispatch::route_table::{
    DynamicRouteTable, PatternList, first_matching, lookup_spec, map_get, pattern_matches, route_key_of, seg_matches,
};
use crate::router::path::http::{split_path, split_path_spec, strs_view};

verus! {

/// A configured route, by view: path, method and executables.
pub type ConfigRoute = (Seq<char>, Seq<char>, Seq<ExecView>);

/// The routes of one configured path, one per method, in order.
pub open spec fn path_routes(path: Seq<char>, pc: PathConfig) -> Seq<ConfigRoute> {
    pc.methods.entries().map_values(|e: (Seq<char>, Vec<Executable>)| (path, e.0, exec_views(e.1@)))
}

/// The routes of a path table, path by path.
pub open spec fn config_routes(paths: Seq<(Seq<char>, PathConfig)>) -> Seq<ConfigRoute>
    decreases paths.len(),
{
    if paths.len() == 0 {
        Seq::empty()
    } else {
        config_routes(paths.drop_last()) + path_routes(paths.last().0, paths.last().1)
    }
}

/// The pattern that a configured path stands for.
pub open spec fn pattern_of(path: Seq<char>) -> Seq<PatSeg> {
    split_path_spec(path).map_values(|s: Seq<char>| pat_seg_of(s))
}

/// Whether a configured path has a wildcard segment.
pub open spec fn is_wild(path: Seq<char>) -> bool {
    exists|i: int| 0 <= i < split_path_spec(path).len() && #[trigger] split_path_spec(path)[i] == "*"@
}

/// The exact routes after adding `rs` to `base`, by view: each route
/// without a wildcard replaces the one under its key.
pub open spec fn statics_after(base: Map<(Seq<char>, u64), Seq<ExecView>>, rs: Seq<ConfigRoute>) -> Map<(Seq<char>, u64), Seq<ExecView>>
    decreases rs.len(),
{
    if rs.len() == 0 {
        base
    } else {
        let prev = statics_after(base, rs.drop_last());
        let r = rs.last();
        if is_wild(r.0) {
            prev
        } else {
            prev.insert(route_key_of(r.1, r.0), r.2)
        }
    }
}

/// The patterns of method `m` with first segment `k` after adding `rs` to
/// `base`, by view: each wildcard route is appended to its group.
pub open spec fn group_after(base: Seq<(Seq<PatSeg>, Seq<ExecView>)>, rs: Seq<ConfigRoute>, m: Seq<char>, k: PatSeg) -> Seq<(Seq<PatSeg>, Seq<ExecView>)>
    decreases rs.len(),
{
    if rs.len() == 0 {
        base
    } else {
        let prev = group_after(base, rs.drop_last(), m, k);
        let r = rs.last();
        if is_wild(r.0) && r.1 == m && pattern_of(r.0)[0] == k {
            prev.push((pattern_of(r.0), r.2))
        } else {
            prev
        }
    }
}

/// Whether some route of `rs` adds a pattern for method `m`.
pub open spec fn adds_method(rs: Seq<ConfigRoute>, m: Seq<char>) -> bool {
    exists|i: int| 0 <= i < rs.len() && is_wild((#[trigger] rs[i]).0) && rs[i].1 == m
}

/// The exact routes of a table, by view.
pub open spec fn statics_view(t: DynamicRouteTable) -> Map<(Seq<char>, u64), Seq<ExecView>> {
    t.statics().map_values(|a: Arc<Vec<Executable>>| exec_views(a@))
}

/// A group of patterns, by view.
pub open spec fn group_view(l: PatternList) -> Seq<(Seq<PatSeg>, Seq<ExecView>)> {
    l.map_values(|e: (Seq<PatSeg>, Arc<Vec<Executable>>)| (e.0, exec_views(e.1@)))
}

/// A copy of a list of executables.
pub(crate) fn clone_executables(v: &Vec<Executable>) -> (r: Vec<Executable>)
    ensures
        exec_views(r@) == exec_views(v@),
{
    let mut r: Vec<Executable> = Vec::new();
    let mut i: usize = 0;
    while i < v.len()
        invariant
            i <= v@.len(),
            exec_views(r@) == exec_views(v@.take(i as int)),
        decreases v@.len() - i,
    {
        let ghost prev = r@;
        let c = v[i].clone();
        let ghost cv = c@;
        r.push(c);
        proof {
            assert(v@.take(i + 1) =~= v@.take(i as int).push(v@[i as int]));
            assert(exec_views(r@) =~= exec_views(prev).push(cv));
            assert(exec_views(v@.take(i + 1)) =~= exec_views(v@.take(i as int)).push(v@[i as int]@));
        }
        i = i + 1;
    }
    proof {
        assert(v@.take(v@.len() as int) =~= v@);
    }
    r
}

/// A copy of a list of pattern segments.
fn clone_segments(v: &Vec<PathSegment>) -> (r: Vec<PathSegment>)
    ensures
        pat_views(r@) == pat_views(v@),
{
    let mut r: Vec<PathSegment> = Vec::new();
    let mut i: usize = 0;
    while i < v.len()
        invariant
            i <= v@.len(),
            pat_views(r@) == pat_views(v@.take(i as int)),
        decreases v@.len() - i,
    {
        let ghost prev = r@;
        let c = v[i].duplicate();
        let ghost cv = c@;
        r.push(c);
        proof {
            assert(v@.take(i + 1) =~= v@.take(i as int).push(v@[i as int]));
            assert(pat_views(r@) =~= pat_views(prev).push(cv));
            assert(pat_views(v@.take(i + 1)) =~= pat_views(v@.take(i as int)).push(v@[i as int]@));
        }
        i = i + 1;
    }
    proof {
        assert(v@.take(v@.len() as int) =~= v@);
    }
    r
}

/// The pattern segments of a configured path, and whether one of them is
/// the wildcard.
fn path_pattern(path: &str) -> (r: (Vec<PathSegment>, bool))
    ensures
        pat_views(r.0@) == pattern_of(path@),
        r.1 == is_wild(path@),
{
    let parts = split_path(path);
    let ghost segs = split_path_spec(path@);
    let mut out: Vec<PathSegment> = Vec::new();
    let mut wild = false;
    let mut i: usize = 0;
    while i < parts.len()
        invariant
            i <= parts@.len(),
            strs_view(parts@) == segs,
            pat_views(out@) == segs.take(i as int).map_values(|s: Seq<char>| pat_seg_of(s)),
            wild == exists|t: int| 0 <= t < i && #[trigger] segs[t] == "*"@,
        decreases parts@.len() - i,
    {
        let seg = PathSegment::from_str(parts[i]);
        proof {
            assert(segs[i as int] == parts@[i as int]@);
        }
        if seg.is_any() {
            wild = true;
        }
        let ghost prev = out@;
        let ghost sv = seg@;
        out.push(seg);
        proof {
            let want = segs.take(i + 1).map_values(|s: Seq<char>| pat_seg_of(s));
            assert(segs.take(i + 1) =~= segs.take(i as int).push(segs[i as int]));
            assert(pat_views(out@) =~= pat_views(prev).push(sv));
            assert(want =~= segs.take(i as int).map_values(|s: Seq<char>| pat_seg_of(s)).push(pat_seg_of(segs[i as int])));
            if !wild {
                assert forall|t: int| 0 <= t < i + 1 implies #[trigger] segs[t] != "*"@ by {
                    if t == i {
                        assert(pat_seg_of(segs[t]) is Static);
                    }
                }
            }
        }
        i = i + 1;
    }
    proof {
        assert(segs.take(segs.len() as int) =~= segs);
    }
    (out, wild)
}

impl PathSegment {
    /// Whether this is a wildcard segment.
    pub fn is_any(&self) -> (b: bool)
        ensures
            b == (self@ is Any),
    {
        match self {
            PathSegment::Any(_) => true,
            PathSegment::Static(_) => false,
        }
    }
}

/// Routes requests to the executables configured for them.
pub struct DefaultRouter<H, F> {
    handlers: StrMap<H>,
    chains: StrMap<Vec<HandlerId>>,
    exchange_factory: Arc<F>,
    route_table: DynamicRouteTable,
}

impl<H, F> DefaultRouter<H, F> {
    /// The registered handlers, by name.
    pub closed spec fn handlers_spec(&self) -> StrMap<H> {
        self.handlers
    }

    /// The named chains.
    pub closed spec fn chains_spec(&self) -> StrMap<Vec<HandlerId>> {
        self.chains
    }

    /// The route table.
    pub closed spec fn table(&self) -> DynamicRouteTable {
        self.route_table
    }

    /// The factory handed in at construction.
    pub closed spec fn factory_spec(&self) -> F {
        *self.exchange_factory
    }

    pub open spec fn wf(&self) -> bool {
        &&& self.handlers_spec().wf()
        &&& self.chains_spec().wf()
        &&& self.table().wf()
    }

    /// A router with the routes and chains of `config` and no handlers.
    pub fn new(config: RouterConfig, exchange_factory: F) -> (r: Self)
        requires
            config.wf(),
        ensures
            r.wf(),
            r.handlers_spec().entries().len() == 0,
            r.chains_spec() == config.chains,
            r.factory_spec() == exchange_factory,
            statics_view(r.table()) == statics_after(Map::empty(), config_routes(config.paths.entries())),
            forall|m: Seq<char>| #[trigger] r.table().has_method(m) == adds_method(config_routes(config.paths.entries()), m),
            forall|m: Seq<char>, k: PatSeg| #[trigger] group_view(r.table().group(m, k))
                == group_after(Seq::empty(), config_routes(config.paths.entries()), m, k),
    {
        let mut router = DefaultRouter {
            handlers: StrMap::new(),
            chains: StrMap::new(),
            exchange_factory: Arc::new(exchange_factory),
            route_table: DynamicRouteTable::new(),
        };
        proof {
            assert(statics_view(router.route_table) =~= Map::empty());
            assert forall|m: Seq<char>, k: PatSeg| #[trigger] group_view(router.route_table.group(m, k))
                == Seq::<(Seq<PatSeg>, Seq<ExecView>)>::empty() by {
                assert(!router.route_table.has_method(m));
                assert(group_view(router.route_table.group(m, k)) =~= Seq::<(Seq<PatSeg>, Seq<ExecView>)>::empty());
            }
        }
        router.parse_paths(&config);
        router.chains = config.chains;
        router
    }

    /// Registers `handler` under the name `id`, replacing any handler of
    /// that name.
    pub fn add_handler(&mut self, id: HandlerId, handler: H) -> (r: &mut Self)
        requires
            old(self).wf(),
        ensures
            r.wf(),
            r.handlers_spec().entries() == entries_insert(old(self).handlers_spec().entries(), id@, handler),
            r.chains_spec() == old(self).chains_spec(),
            r.table() == old(self).table(),
            r.factory_spec() == old(self).factory_spec(),
            *final(self) == *final(r),
    {
        self.handlers.insert(id.0, handler);
        self
    }

    /// The registered handlers.
    pub fn handlers(&self) -> (r: &StrMap<H>)
        ensures
            *r == self.handlers_spec(),
    {
        &self.handlers
    }

    /// The named chains.
    pub fn chains(&self) -> (r: &StrMap<Vec<HandlerId>>)
        ensures
            *r == self.chains_spec(),
    {
        &self.chains
    }

    /// The factory that builds exchanges for requests.
    pub fn exchange_factory(&self) -> (r: &F)
        ensures
            *r == self.factory_spec(),
    {
        &self.exchange_factory
    }

    /// Adds the routes of every configured path: a path with a wildcard
    /// segment becomes a pattern of each of its methods, any other path an
    /// exact route.
    fn parse_paths(&mut self, router_config: &RouterConfig)
        requires
            old(self).wf(),
            router_config.wf(),
        ensures
            final(self).wf(),
            final(self).handlers == old(self).handlers,
            final(self).chains == old(self).chains,
            final(self).exchange_factory == old(self).exchange_factory,
            statics_view(final(self).route_table)
                == statics_after(statics_view(old(self).route_table), config_routes(router_config.paths.entries())),
            forall|m: Seq<char>| #[trigger] final(self).route_table.has_method(m)
                == (old(self).route_table.has_method(m) || adds_method(config_routes(router_config.paths.entries()), m)),
            forall|m: Seq<char>, k: PatSeg| #[trigger] group_view(final(self).route_table.group(m, k))
                == group_after(group_view(old(self).route_table.group(m, k)), config_routes(router_config.paths.entries()), m, k),
    {
        let ghost paths = router_config.paths.entries();
        let ghost t0 = self.route_table;
        let mut i: usize = 0;
        while i < router_config.paths.len()
            invariant
                0 <= i <= paths.len(),
                paths == router_config.paths.entries(),
                router_config.wf(),
                self.wf(),
                self.handlers == old(self).handlers,
                self.chains == old(self).chains,
                self.exchange_factory == old(self).exchange_factory,
                t0 == old(self).route_table,
                statics_view(self.route_table) == statics_after(statics_view(t0), config_routes(paths.take(i as int))),
                forall|m: Seq<char>| #[trigger] self.route_table.has_method(m)
                    == (t0.has_method(m) || adds_method(config_routes(paths.take(i as int)), m)),
                forall|m: Seq<char>, k: PatSeg| #[trigger] group_view(self.route_table.group(m, k))
                    == group_after(group_view(t0.group(m, k)), config_routes(paths.take(i as int)), m, k),
            decreases paths.len() - i,
        {
            let (path, config) = router_config.paths.entry_at(i);
            let (segments, wild) = path_pattern(path.as_str());
            let ghost done = config_routes(paths.take(i as int));
            let ghost here = path_routes(path@, *config);
            proof {
                assert(paths.take(i + 1).drop_last() =~= paths.take(i as int));
                assert(paths.take(i + 1).last() == paths[i as int]);
                assert(config_routes(paths.take(i + 1)) == done + here);
                assert(config.methods.wf());
            }
            let mut j: usize = 0;
            while j < config.methods.len()
                invariant
                    0 <= j <= here.len(),
                    here == path_routes(path@, *config),
                    config.methods.wf(),
                    pat_views(segments@) == pattern_of(path@),
                    wild == is_wild(path@),
                    self.wf(),
                    self.handlers == old(self).handlers,
                    self.chains == old(self).chains,
                    self.exchange_factory == old(self).exchange_factory,
                    statics_view(self.route_table) == statics_after(statics_view(t0), done + here.take(j as int)),
                    forall|m: Seq<char>| #[trigger] self.route_table.has_method(m)
                        == (t0.has_method(m) || adds_method(done + here.take(j as int), m)),
                    forall|m: Seq<char>, k: PatSeg| #[trigger] group_view(self.route_table.group(m, k))
                        == group_after(group_view(t0.group(m, k)), done + here.take(j as int), m, k),
                decreases here.len() - j,
            {
                let (method, handlers) = config.methods.entry_at(j);
                let executables = Arc::new(clone_executables(handlers));
                let ghost before = self.route_table;
                let ghost rs = done + here.take(j as int);
                let ghost rs2 = done + here.take(j + 1);
                let ghost route = here[j as int];
                proof {
                    assert(route == (path@, method@, exec_views(handlers@)));
                    assert(rs2 =~= rs.push(route));
                    assert(rs2.drop_last() =~= rs);
                }
                if wild {
                    self.route_table.add_dynamic_route(method.clone(), clone_segments(&segments), executables);
                    proof {
                        let p = pattern_of(path@);
                        let wi = choose|t: int| 0 <= t < split_path_spec(path@).len() && #[trigger] split_path_spec(path@)[t] == "*"@;
                        assert(p.len() > 0);
                        assert(statics_view(self.route_table) =~= statics_after(statics_view(t0), rs2));
                        assert forall|m: Seq<char>| #[trigger] self.route_table.has_method(m)
                            == (t0.has_method(m) || adds_method(rs2, m)) by {
                            if m == method@ {
                                assert(rs2[rs.len() as int] == route);
                            }
                            if adds_method(rs2, m) && !adds_method(rs, m) {
                                let w = choose|w: int| 0 <= w < rs2.len() && is_wild((#[trigger] rs2[w]).0) && rs2[w].1 == m;
                                if w < rs.len() {
                                    assert(rs2[w] == rs[w]);
                                }
                            }
                            if adds_method(rs, m) {
                                let w = choose|w: int| 0 <= w < rs.len() && is_wild((#[trigger] rs[w]).0) && rs[w].1 == m;
                                assert(rs2[w] == rs[w]);
                            }
                        }
                        assert forall|m: Seq<char>, k: PatSeg| #[trigger] group_view(self.route_table.group(m, k))
                            == group_after(group_view(t0.group(m, k)), rs2, m, k) by {
                            if m == method@ && k == p[0] {
                                assert(group_view(self.route_table.group(m, k))
                                    =~= group_view(before.group(m, k)).push((p, exec_views(handlers@))));
                            }
                        }
                    }
                } else {
                    self.route_table.add_static_route(method.clone(), path.clone(), executables);
                    proof {
                        assert(statics_view(self.route_table) =~= statics_after(statics_view(t0), rs2));
                        assert forall|m: Seq<char>| #[trigger] self.route_table.has_method(m)
                            == (t0.has_method(m) || adds_method(rs2, m)) by {
                            if adds_method(rs2, m) && !adds_method(rs, m) {
                                let w = choose|w: int| 0 <= w < rs2.len() && is_wild((#[trigger] rs2[w]).0) && rs2[w].1 == m;
                                if w < rs.len() {
                                    assert(rs2[w] == rs[w]);
                                }
                            }
                            if adds_method(rs, m) {
                                let w = choose|w: int| 0 <= w < rs.len() && is_wild((#[trigger] rs[w]).0) && rs[w].1 == m;
                                assert(rs2[w] == rs[w]);
                            }
                        }
                        assert forall|m: Seq<char>, k: PatSeg| #[trigger] group_view(self.route_table.group(m, k))
                            == group_after(group_view(t0.group(m, k)), rs2, m, k) by {
                        }
                    }
                }
                j = j + 1;
            }
            proof {
                assert(here.take(here.len() as int) =~= here);
            }
            i = i + 1;
        }
        proof {
            assert(paths.take(paths.len() as int) =~= paths);
        }
    }

    /// The executables that the table routes `route_info` to.
    pub fn get_handlers_from_route_info(&self, route_info: &RouteInfo) -> (r: Option<Arc<Vec<Executable>>>)
        requires
            self.wf(),
        ensures
            r == lookup_spec(
                self.table().statics(),
                self.table().has_method(route_info.method@),
                |k: PatSeg| self.table().group(route_info.method@, k),
                route_info.method@,
                route_info.path@,
            ),
    {
        self.route_table.lookup(route_info)
    }
}

proof fn lemma_statics_last(base: Map<(Seq<char>, u64), Seq<ExecView>>, rs: Seq<ConfigRoute>, i: int)
    requires
        0 <= i < rs.len(),
        !is_wild(rs[i].0),
        forall|j: int| i < j < rs.len() && !is_wild((#[trigger] rs[j]).0) ==> route_key_of(rs[j].1, rs[j].0) != route_key_of(rs[i].1, rs[i].0),
    ensures
        statics_after(base, rs).dom().contains(route_key_of(rs[i].1, rs[i].0)),
        statics_after(base, rs)[route_key_of(rs[i].1, rs[i].0)] == rs[i].2,
    decreases rs.len(),
{
    if i < rs.len() - 1 {
        let prev = rs.drop_last();
        assert forall|j: int| i < j < prev.len() && !is_wild((#[trigger] prev[j]).0) implies route_key_of(prev[j].1, prev[j].0) != route_key_of(prev[i].1, prev[i].0) by {
            assert(prev[j] == rs[j]);
        }
        lemma_statics_last(base, prev, i);
        assert(prev[i] == rs[i]);
    }
}

proof fn lemma_statics_from(base: Map<(Seq<char>, u64), Seq<ExecView>>, rs: Seq<ConfigRoute>, key: (Seq<char>, u64))
    requires
        statics_after(base, rs).dom().contains(key),
    ensures
        (base.dom().contains(key) && statics_after(base, rs)[key] == base[key])
            || exists|i: int| 0 <= i < rs.len() && !is_wild((#[trigger] rs[i]).0)
                && route_key_of(rs[i].1, rs[i].0) == key && rs[i].2 == statics_after(base, rs)[key],
    decreases rs.len(),
{
    if rs.len() > 0 {
        let prev = rs.drop_last();
        let r = rs.last();
        if !is_wild(r.0) && route_key_of(r.1, r.0) == key {
            assert(rs[rs.len() - 1] == r);
        } else {
            lemma_statics_from(base, prev, key);
            if exists|i: int| 0 <= i < prev.len() && !is_wild((#[trigger] prev[i]).0)
                && route_key_of(prev[i].1, prev[i].0) == key && prev[i].2 == statics_after(base, prev)[key] {
                let i = choose|i: int| 0 <= i < prev.len() && !is_wild((#[trigger] prev[i]).0)
                    && route_key_of(prev[i].1, prev[i].0) == key && prev[i].2 == statics_after(base, prev)[key];
                assert(rs[i] == prev[i]);
            }
        }
    }
}

proof fn lemma_group_from(base: Seq<(Seq<PatSeg>, Seq<ExecView>)>, rs: Seq<ConfigRoute>, m: Seq<char>, k: PatSeg, g: int)
    requires
        0 <= g < group_after(base, rs, m, k).len(),
    ensures
        (g < base.len() && group_after(base, rs, m, k)[g] == base[g])
            || exists|i: int| 0 <= i < rs.len() && is_wild((#[trigger] rs[i]).0) && rs[i].1 == m
                && rs[i].2 == group_after(base, rs, m, k)[g].1,
    decreases rs.len(),
{
    if rs.len() > 0 {
        let prev = rs.drop_last();
        let r = rs.last();
        let pg = group_after(base, prev, m, k);
        if is_wild(r.0) && r.1 == m && pattern_of(r.0)[0] == k && g == pg.len() {
            assert(rs[rs.len() - 1] == r);
        } else {
            lemma_group_from(base, prev, m, k, g);
            if exists|i: int| 0 <= i < prev.len() && is_wild((#[trigger] prev[i]).0) && prev[i].1 == m
                && prev[i].2 == pg[g].1 {
                let i = choose|i: int| 0 <= i < prev.len() && is_wild((#[trigger] prev[i]).0) && prev[i].1 == m
                    && prev[i].2 == pg[g].1;
                assert(rs[i] == prev[i]);
            }
        }
    }
}

proof fn lemma_first_matching_in(list: PatternList, segs: Seq<Seq<char>>)
    ensures
        first_matching(list, segs) matches Some(v) ==> exists|j: int| 0 <= j < list.len() && (#[trigger] list[j]).1 == v,
    decreases list.len(),
{
    if list.len() > 0 && !pattern_matches(list[0].0, segs) {
        lemma_first_matching_in(list.drop_first(), segs);
        if first_matching(list, segs) is Some {
            let j = choose|j: int| 0 <= j < list.drop_first().len() && (#[trigger] list.drop_first()[j]).1 == first_matching(list, segs)->0;
            assert(list[j + 1] == list.drop_first()[j]);
        }
    } else if list.len() > 0 {
        assert(list[0].1 == list[0].1);
    }
}

proof fn lemma_group_after_has(base: Seq<(Seq<PatSeg>, Seq<ExecView>)>, rs: Seq<ConfigRoute>, m: Seq<char>, k: PatSeg, i: int)
    requires
        0 <= i < rs.len(),
        is_wild(rs[i].0),
        rs[i].1 == m,
        pattern_of(rs[i].0)[0] == k,
    ensures
        exists|g: int| 0 <= g < group_after(base, rs, m, k).len()
            && (#[trigger] group_after(base, rs, m, k)[g]).0 == pattern_of(rs[i].0),
    decreases rs.len(),
{
    let prev = rs.drop_last();
    let pg = group_after(base, prev, m, k);
    if i == rs.len() - 1 {
        assert(rs.last() == rs[i]);
        assert(group_after(base, rs, m, k)[pg.len() as int].0 == pattern_of(rs[i].0));
    } else {
        assert(prev[i] == rs[i]);
        lemma_group_after_has(base, prev, m, k, i);
        let g = choose|g: int| 0 <= g < pg.len() && (#[trigger] pg[g]).0 == pattern_of(rs[i].0);
        assert(group_after(base, rs, m, k)[g] == pg[g]);
    }
}

proof fn lemma_first_matching_some(list: PatternList, segs: Seq<Seq<char>>, j: int)
    requires
        0 <= j < list.len(),
        pattern_matches(list[j].0, segs),
    ensures
        first_matching(list, segs) is Some,
    decreases list.len(),
{
    if j > 0 && !pattern_matches(list[0].0, segs) {
        assert(list.drop_first()[j - 1] == list[j]);
        lemma_first_matching_some(list.drop_first(), segs, j - 1);
    }
}

/// A configured path with a `*` segment at any position becomes a wildcard
/// pattern of its method: the router built from the configuration serves
/// every request of that method whose segments match the path position by
/// position, a static segment by equal text and `*` by any one segment.
pub proof fn lemma_configured_wildcard_route_served<H, F>(router: DefaultRouter<H, F>, config: RouterConfig, i: int, path: Seq<char>)
    requires
        router.wf(),
        statics_view(router.table()) == statics_after(Map::empty(), config_routes(config.paths.entries())),
        forall|m: Seq<char>| #[trigger] router.table().has_method(m) == adds_method(config_routes(config.paths.entries()), m),
        forall|m: Seq<char>, k: PatSeg| #[trigger] group_view(router.table().group(m, k))
            == group_after(Seq::empty(), config_routes(config.paths.entries()), m, k),
        0 <= i < config_routes(config.paths.entries()).len(),
        exists|j: int| 0 <= j < split_path_spec(config_routes(config.paths.entries())[i].0).len()
            && #[trigger] split_path_spec(config_routes(config.paths.entries())[i].0)[j] == "*"@,
        pattern_matches(pattern_of(config_routes(config.paths.entries())[i].0), split_path_spec(path)),
    ensures
        ({
            let m = config_routes(config.paths.entries())[i].1;
            lookup_spec(
                router.table().statics(),
                router.table().has_method(m),
                |k: PatSeg| router.table().group(m, k),
                m,
                path,
            ) is Some
        }),
{
    let rs = config_routes(config.paths.entries());
    let r = rs[i];
    let m = r.1;
    let t = router.table();
    let key = route_key_of(m, path);
    let j = choose|j: int| 0 <= j < split_path_spec(r.0).len() && #[trigger] split_path_spec(r.0)[j] == "*"@;
    assert(is_wild(r.0));
    assert(adds_method(rs, m)) by {
        assert(is_wild(rs[i].0) && rs[i].1 == m);
    }
    assert(t.has_method(m));
    if !t.statics().dom().contains(key) {
        let segs = split_path_spec(path);
        let pat = pattern_of(r.0);
        assert(pat.len() == split_path_spec(r.0).len());
        assert(segs.len() > 0);
        let k = pat[0];
        lemma_group_after_has(Seq::empty(), rs, m, k, i);
        let ga = group_after(Seq::empty(), rs, m, k);
        let g = choose|g: int| 0 <= g < ga.len() && (#[trigger] ga[g]).0 == pat;
        let list = t.group(m, k);
        assert(group_view(list) == ga);
        assert(group_view(list)[g] == (list[g].0, exec_views(list[g].1@)));
        assert(list[g].0 == pat);
        lemma_first_matching_some(list, segs, g);
        assert(seg_matches(pat[0], segs[0]));
        match k {
            PatSeg::Static(t0) => {
                assert(k == PatSeg::Static(segs[0]));
            },
            PatSeg::Any(x) => {
                assert(split_path_spec(r.0)[0] == "*"@);
                assert(k == PatSeg::Any("*"@));
            },
        }
    }
}

/// A configured route whose path has no wildcard is found for its method
/// and path by the router built from the configuration, with the
/// executables it was configured with, unless a later configured route
/// takes the same method and path hash.
pub proof fn lemma_configured_static_route_found<H, F>(router: DefaultRouter<H, F>, config: RouterConfig, i: int)
    requires
        router.wf(),
        statics_view(router.table()) == statics_after(Map::empty(), config_routes(config.paths.entries())),
        0 <= i < config_routes(config.paths.entries()).len(),
        !is_wild(config_routes(config.paths.entries())[i].0),
        forall|j: int| i < j < config_routes(config.paths.entries()).len()
            && !is_wild((#[trigger] config_routes(config.paths.entries())[j]).0)
            ==> route_key_of(config_routes(config.paths.entries())[j].1, config_routes(config.paths.entries())[j].0)
                != route_key_of(config_routes(config.paths.entries())[i].1, config_routes(config.paths.entries())[i].0),
    ensures
        ({
            let r = config_routes(config.paths.entries())[i];
            let found = lookup_spec(
                router.table().statics(),
                router.table().has_method(r.1),
                |k: PatSeg| router.table().group(r.1, k),
                r.1,
                r.0,
            );
            found matches Some(a) && exec_views(a@) == r.2
        }),
{
    let rs = config_routes(config.paths.entries());
    let r = rs[i];
    let key = route_key_of(r.1, r.0);
    lemma_statics_last(Map::empty(), rs, i);
    assert(statics_view(router.table()).dom().contains(key));
    assert(router.table().statics().dom().contains(key));
}

/// What the router finds for a request was configured for the request's
/// method: the executables of some configured route of that method.
pub proof fn lemma_found_routes_are_configured<H, F>(router: DefaultRouter<H, F>, config: RouterConfig, method: Seq<char>, path: Seq<char>)
    requires
        router.wf(),
        statics_view(router.table()) == statics_after(Map::empty(), config_routes(config.paths.entries())),
        forall|m: Seq<char>, k: PatSeg| #[trigger] group_view(router.table().group(m, k))
            == group_after(Seq::empty(), config_routes(config.paths.entries()), m, k),
    ensures
        lookup_spec(
            router.table().statics(),
            router.table().has_method(method),
            |k: PatSeg| router.table().group(method, k),
            method,
            path,
        ) matches Some(a) ==> exists|i: int| 0 <= i < config_routes(config.paths.entries()).len()
            && (#[trigger] config_routes(config.paths.entries())[i]).1 == method
            && config_routes(config.paths.entries())[i].2 == exec_views(a@),
{
    let rs = config_routes(config.paths.entries());
    let t = router.table();
    let key = route_key_of(method, path);
    if t.statics().dom().contains(key) {
        assert(statics_view(t).dom().contains(key));
        lemma_statics_from(Map::empty(), rs, key);
        let i = choose|i: int| 0 <= i < rs.len() && !is_wild((#[trigger] rs[i]).0)
            && route_key_of(rs[i].1, rs[i].0) == key && rs[i].2 == statics_after(Map::empty(), rs)[key];
        assert(rs[i].1 == method);
    } else if t.has_method(method) {
        let segs = split_path_spec(path);
        if segs.len() > 0 {
            let ks = PatSeg::Static(segs[0]);
            let kw = PatSeg::Any("*"@);
            let k = if first_matching(t.group(method, ks), segs) is Some { ks } else { kw };
            let list = t.group(method, k);
            lemma_first_matching_in(list, segs);
            if first_matching(list, segs) is Some {
                let v = first_matching(list, segs)->0;
                let j = choose|j: int| 0 <= j < list.len() && (#[trigger] list[j]).1 == v;
                assert(group_view(list)[j] == (list[j].0, exec_views(v@)));
                lemma_group_from(Seq::empty(), rs, method, k, j);
                let i = choose|i: int| 0 <= i < rs.len() && is_wild((#[trigger] rs[i]).0) && rs[i].1 == method
                    && rs[i].2 == group_after(Seq::empty(), rs, method, k)[j].1;
                assert(rs[i].1 == method);
            }
        }
    }
}

} // verus!
