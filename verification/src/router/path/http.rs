//! Routing of HTTP paths and methods through a tree of path segments, where
//! a `*` segment matches any remaining path.
use vstd::prelude::*;
use std::sync::Arc;
use crate::collections::{StrMap, entries_get, entries_insert, has_key, key_index, keys_distinct};
use crate::handler::HandlerRegistry;
use crate::router::config::{PathChain, PathChainView, RouterConfig, paths_wf};
use crate::router::path::{
    LoadedChain, PathMatcherError, RouteKeyMatcher, chain_first_missing, chain_loaded,
    is_missing_handler_error,
};
use crate::router::route::RouteKey;
use crate::ext::arc_share;

verus! {

broadcast use vstd::string::group_string_axioms;

/// Splits `s` at '/': the completed segments, and the segment still open
/// at the end of `s`. Empty segments are dropped.
pub open spec fn scan_path(s: Seq<char>) -> (Seq<Seq<char>>, Seq<char>)
    decreases s.len(),
{
    if s.len() == 0 {
        (Seq::empty(), Seq::empty())
    } else {
        let (done, cur) = scan_path(s.drop_last());
        if s.last() == '/' {
            if cur.len() > 0 {
                (done.push(cur), Seq::empty())
            } else {
                (done, Seq::empty())
            }
        } else {
            (done, cur.push(s.last()))
        }
    }
}

/// The non-empty segments of a path, in order: leading and trailing slashes
/// are ignored and consecutive slashes act as one.
pub open spec fn split_path_spec(s: Seq<char>) -> Seq<Seq<char>> {
    let (done, cur) = scan_path(s);
    if cur.len() > 0 {
        done.push(cur)
    } else {
        done
    }
}

/// The views of a list of string slices.
pub open spec fn strs_view(v: Seq<&str>) -> Seq<Seq<char>> {
    v.map_values(|x: &str| x@)
}

/// Splits a path into its non-empty segments.
pub fn split_path<'a>(path: &'a str) -> (r: Vec<&'a str>)
    ensures
        strs_view(r@) == split_path_spec(path@),
{
    let n = path.unicode_len();
    let mut segments: Vec<&'a str> = Vec::new();
    let mut start: usize = 0;
    let mut i: usize = 0;
    proof {
        assert(path@.take(0) =~= Seq::<char>::empty());
        assert(strs_view(segments@) =~= Seq::<Seq<char>>::empty());
        assert(path@.subrange(0, 0) =~= Seq::<char>::empty());
    }
    for c in it: path.chars()
        invariant
            n == path@.len(),
            it.seq() == path@,
            i == it.index(),
            start <= i <= n,
            scan_path(path@.take(i as int)).0 == strs_view(segments@),
            scan_path(path@.take(i as int)).1 == path@.subrange(start as int, i as int),
    {
        proof {
            assert(path@.take(i + 1).drop_last() =~= path@.take(i as int));
            assert(path@.take(i + 1).last() == path@[i as int]);
        }
        if c == '/' {
            if i > start {
                let seg = path.substring_char(start, i);
                let ghost old_segs = segments@;
                segments.push(seg);
                proof {
                    assert(strs_view(segments@) =~= strs_view(old_segs).push(seg@));
                }
            } else {
            }
            start = i + 1;
            i = i + 1;
            proof {
                assert(path@.subrange(start as int, i as int) =~= Seq::<char>::empty());
            }
        } else {
            i = i + 1;
            proof {
                assert(path@.subrange(start as int, i as int) =~= path@.subrange(start as int, i - 1).push(c));
            }
        }
    }
    proof {
        assert(path@.take(n as int) =~= path@);
    }
    if n > start {
        let seg = path.substring_char(start, n);
        let ghost old_segs = segments@;
        segments.push(seg);
        proof {
            assert(strs_view(segments@) =~= strs_view(old_segs).push(seg@));
        }
    }
    segments
}


/// A segment of a route pattern, by view.
pub ghost enum SegmentView {
    Static(Seq<char>),
    Any,
}

/// The segment that the text `s` stands for: `*` is the wildcard.
pub open spec fn segment_of(s: Seq<char>) -> SegmentView {
    if s == "*"@ {
        SegmentView::Any
    } else {
        SegmentView::Static(s)
    }
}

/// A segment in a URL path pattern: static text that must match exactly,
/// or the wildcard `*`.
#[derive(Debug, Clone)]
pub enum HttpPathSegment {
    Static(String),
    Any,
}

impl View for HttpPathSegment {
    type V = SegmentView;

    open spec fn view(&self) -> SegmentView {
        match self {
            HttpPathSegment::Static(s) => SegmentView::Static(s@),
            HttpPathSegment::Any => SegmentView::Any,
        }
    }
}

impl HttpPathSegment {
    /// Parses a segment: `*` is the wildcard, anything else is static.
    pub fn from_str(s: &str) -> (r: Self)
        ensures
            r@ == segment_of(s@),
    {
        let owned = s.to_owned();
        if owned == "*".to_owned() {
            HttpPathSegment::Any
        } else {
            HttpPathSegment::Static(owned)
        }
    }

    /// Whether this is the wildcard.
    pub fn is_any(&self) -> (b: bool)
        ensures
            b == (self@ == SegmentView::Any),
    {
        match self {
            HttpPathSegment::Any => true,
            HttpPathSegment::Static(_) => false,
        }
    }

    /// Whether two segments are the same.
    pub fn same_as(&self, other: &HttpPathSegment) -> (b: bool)
        ensures
            b == (self@ == other@),
    {
        match (self, other) {
            (HttpPathSegment::Any, HttpPathSegment::Any) => true,
            (HttpPathSegment::Static(a), HttpPathSegment::Static(b)) => *a == *b,
            _ => false,
        }
    }

    /// The text of the segment.
    pub fn to_text(&self) -> (r: String)
        ensures
            r@ == (match self@ {
                SegmentView::Static(s) => s,
                SegmentView::Any => "*"@,
            }),
    {
        match self {
            HttpPathSegment::Static(s) => s.clone(),
            HttpPathSegment::Any => "*".to_owned(),
        }
    }
}

/// A header name, the key that routes by header are looked up by.
pub struct HeaderKey<'a> {
    pub header: &'a str,
}

impl<'a> HeaderKey<'a> {
    pub fn new(header: &'a str) -> (k: Self)
        ensures
            k.header == header,
    {
        Self { header }
    }
}

/// A method and a path, the key that HTTP routes are looked up by.
pub struct HttpPathMethodKey<'a> {
    pub path: &'a str,
    pub method: &'a str,
}

impl<'a> Default for HttpPathMethodKey<'a> {
    /// A key with an empty path and an empty method.
    fn default() -> (k: Self)
        ensures
            k.path@ == Seq::<char>::empty(),
            k.method@ == Seq::<char>::empty(),
    {
        proof {
            reveal_strlit("");
        }
        HttpPathMethodKey { path: "", method: "" }
    }
}

impl<'a> HttpPathMethodKey<'a> {
    pub fn new(method: &'a str, path: &'a str) -> (k: Self)
        ensures
            k.method == method,
            k.path == path,
    {
        Self { method, path }
    }

    pub fn with_method(self, method: &'a str) -> (k: Self)
        ensures
            k.method == method,
            k.path == self.path,
    {
        HttpPathMethodKey { path: self.path, method }
    }

    pub fn with_path(self, path: &'a str) -> (k: Self)
        ensures
            k.method == self.method,
            k.path == path,
    {
        HttpPathMethodKey { path, method: self.method }
    }
}

impl<'a> From<(&'a str, &'a str)> for HttpPathMethodKey<'a> {
    /// A key from a `(path, method)` pair.
    fn from(value: (&'a str, &'a str)) -> (k: Self) {
        HttpPathMethodKey { path: value.0, method: value.1 }
    }
}

impl<'a> vstd::std_specs::convert::FromSpecImpl<(&'a str, &'a str)> for HttpPathMethodKey<'a> {
    open spec fn obeys_from_spec() -> bool {
        true
    }

    open spec fn from_spec(v: (&'a str, &'a str)) -> Self {
        HttpPathMethodKey { path: v.0, method: v.1 }
    }
}

/// The route pattern that a configured path stands for: its segments up to
/// and including the first wildcard.
pub open spec fn truncate_at_any(segs: Seq<SegmentView>) -> Seq<SegmentView>
    decreases segs.len(),
{
    if segs.len() == 0 {
        segs
    } else if segs[0] == SegmentView::Any {
        seq![SegmentView::Any]
    } else {
        seq![segs[0]] + truncate_at_any(segs.drop_first())
    }
}

/// The segments of a configured path, by view.
pub open spec fn path_segments(path: Seq<char>) -> Seq<SegmentView> {
    split_path_spec(path).map_values(|s: Seq<char>| segment_of(s))
}

/// The tree node that a configured path is attached to.
pub open spec fn route_path(path: Seq<char>) -> Seq<SegmentView> {
    truncate_at_any(path_segments(path))
}

proof fn lemma_truncate(sv: Seq<SegmentView>, k: int)
    requires
        0 <= k <= sv.len(),
        forall|t: int| 0 <= t < k ==> sv[t] != SegmentView::Any,
    ensures
        truncate_at_any(sv).len() >= k,
        truncate_at_any(sv).take(k) == sv.take(k),
        k == sv.len() ==> truncate_at_any(sv) == sv,
        k < sv.len() && sv[k] == SegmentView::Any ==> truncate_at_any(sv) == sv.take(k + 1),
    decreases k,
{
    if k == 0 {
        if sv.len() > 0 && sv[0] == SegmentView::Any {
            assert(sv.take(1) =~= seq![SegmentView::Any]);
        }
        if sv.len() == 0 {
            assert(truncate_at_any(sv) =~= sv);
        }
        assert(truncate_at_any(sv).take(0) =~= sv.take(0));
    } else {
        let rest = sv.drop_first();
        assert forall|t: int| 0 <= t < k - 1 implies rest[t] != SegmentView::Any by {
            assert(rest[t] == sv[t + 1]);
        }
        lemma_truncate(rest, k - 1);
        assert(sv[0] != SegmentView::Any);
        let tr = truncate_at_any(rest);
        assert(truncate_at_any(sv) == seq![sv[0]] + tr);
        assert forall|t: int| 0 <= t < k implies truncate_at_any(sv)[t] == sv[t] by {
            if t > 0 {
                assert(truncate_at_any(sv)[t] == tr[t - 1]);
                assert(tr.take(k - 1)[t - 1] == rest.take(k - 1)[t - 1]);
                assert(rest[t - 1] == sv[t]);
            }
        }
        assert(truncate_at_any(sv).take(k) =~= sv.take(k));
        if k == sv.len() {
            assert(truncate_at_any(sv) =~= sv);
        }
        if k < sv.len() && sv[k] == SegmentView::Any {
            assert(rest[k - 1] == sv[k]);
            assert(truncate_at_any(sv) =~= sv.take(k + 1));
        }
    }
}

/// A pattern made of the first `i` segments, all static.
pub open spec fn statics(segs: Seq<Seq<char>>, i: int) -> Seq<SegmentView> {
    segs.take(i).map_values(|s: Seq<char>| SegmentView::Static(s))
}

/// The value that `routes` holds for method `m` at pattern `p`, if any.
pub open spec fn method_at<V>(routes: Map<Seq<SegmentView>, Map<Seq<char>, V>>, p: Seq<SegmentView>, m: Seq<char>) -> Option<V> {
    if routes.dom().contains(p) && routes[p].dom().contains(m) {
        Some(routes[p][m])
    } else {
        None
    }
}

/// The outcome once the walk has used every segment, at depth `i`: a
/// route at the node reached wins, otherwise the deepest wildcard route
/// seen.
pub open spec fn walk_finish<V>(
    routes: Map<Seq<SegmentView>, Map<Seq<char>, V>>,
    segs: Seq<Seq<char>>,
    m: Seq<char>,
    i: int,
    best: Option<V>,
) -> Option<V> {
    match method_at(routes, statics(segs, i), m) {
        Some(v) => Some(v),
        None => best,
    }
}

/// Walks the static segments of a request from depth `i`, remembering the
/// deepest wildcard route for `m` seen on the way. A static route serves
/// only a request whose segments it matches exactly: where the walk cannot
/// go deeper before the last segment, the deepest wildcard route seen is
/// the answer.
pub open spec fn walk<V>(
    routes: Map<Seq<SegmentView>, Map<Seq<char>, V>>,
    segs: Seq<Seq<char>>,
    m: Seq<char>,
    i: int,
    best: Option<V>,
) -> Option<V>
    decreases segs.len() - i,
{
    if 0 <= i < segs.len() {
        let b2 = match method_at(routes, statics(segs, i).push(SegmentView::Any), m) {
            Some(v) => Some(v),
            None => best,
        };
        if routes.dom().contains(statics(segs, i + 1)) {
            walk(routes, segs, m, i + 1, b2)
        } else {
            b2
        }
    } else {
        walk_finish(routes, segs, m, i, best)
    }
}

/// The route that serves `path` and `method`.
pub open spec fn lookup_spec<V>(routes: Map<Seq<SegmentView>, Map<Seq<char>, V>>, path: Seq<char>, method: Seq<char>) -> Option<V> {
    walk(routes, split_path_spec(path), method, 0, None)
}

/// Where the chain of a route comes from: kept from before, or loaded from
/// a configured path chain.
pub ghost enum RouteSource<V> {
    Kept(V),
    Loaded(PathChainView),
}

/// Every route marked as kept.
pub open spec fn kept_sources<V>(routes: Map<Seq<SegmentView>, Map<Seq<char>, V>>) -> Map<Seq<SegmentView>, Map<Seq<char>, RouteSource<V>>> {
    routes.map_values(|ms: Map<Seq<char>, V>| ms.map_values(|v: V| RouteSource::Kept(v)))
}

/// Adds node `q` with no routes unless it exists.
pub open spec fn ensure_node<V>(s: Map<Seq<SegmentView>, Map<Seq<char>, V>>, q: Seq<SegmentView>) -> Map<Seq<SegmentView>, Map<Seq<char>, V>> {
    if s.dom().contains(q) {
        s
    } else {
        s.insert(q, Map::empty())
    }
}

/// Adds the nodes for the prefixes of `p` of length up to `k`.
pub open spec fn ensure_prefixes<V>(s: Map<Seq<SegmentView>, Map<Seq<char>, V>>, p: Seq<SegmentView>, k: nat) -> Map<Seq<SegmentView>, Map<Seq<char>, V>>
    decreases k,
{
    if k == 0 {
        ensure_node(s, p.take(0))
    } else {
        ensure_node(ensure_prefixes(s, p, (k - 1) as nat), p.take(k as int))
    }
}

/// Attaches each method's chain of `ms` to node `p`, later ones winning.
pub open spec fn add_methods<V>(
    s: Map<Seq<SegmentView>, Map<Seq<char>, RouteSource<V>>>,
    p: Seq<SegmentView>,
    ms: Seq<(Seq<char>, PathChain)>,
) -> Map<Seq<SegmentView>, Map<Seq<char>, RouteSource<V>>>
    decreases ms.len(),
{
    if ms.len() == 0 {
        s
    } else {
        let s1 = add_methods(s, p, ms.drop_last());
        s1.insert(p, s1[p].insert(ms.last().0, RouteSource::Loaded(ms.last().1@)))
    }
}

/// Adds one configured path with its methods.
pub open spec fn add_route<V>(
    s: Map<Seq<SegmentView>, Map<Seq<char>, RouteSource<V>>>,
    path: Seq<char>,
    ms: Seq<(Seq<char>, PathChain)>,
) -> Map<Seq<SegmentView>, Map<Seq<char>, RouteSource<V>>> {
    let p = route_path(path);
    add_methods(ensure_prefixes(s, p, p.len()), p, ms)
}

/// Adds every configured path, in order.
pub open spec fn sources_fold<V>(
    s: Map<Seq<SegmentView>, Map<Seq<char>, RouteSource<V>>>,
    entries: Seq<(Seq<char>, StrMap<PathChain>)>,
) -> Map<Seq<SegmentView>, Map<Seq<char>, RouteSource<V>>>
    decreases entries.len(),
{
    if entries.len() == 0 {
        s
    } else {
        add_route(sources_fold(s, entries.drop_last()), entries.last().0, entries.last().1.entries())
    }
}

/// The first handler that fails to load among the chains of `ms`.
pub open spec fn first_failure_in_methods<Q, T, R>(reg: HandlerRegistry<Q, T, R>, ms: Seq<(Seq<char>, PathChain)>) -> Option<u64>
    decreases ms.len(),
{
    if ms.len() == 0 {
        None
    } else {
        match chain_first_missing(reg, ms[0].1@) {
            Some(h) => Some(h),
            None => first_failure_in_methods(reg, ms.drop_first()),
        }
    }
}

/// The first handler that fails to load among the chains of a
/// configuration, path by path.
pub open spec fn first_failure<Q, T, R>(reg: HandlerRegistry<Q, T, R>, entries: Seq<(Seq<char>, StrMap<PathChain>)>) -> Option<u64>
    decreases entries.len(),
{
    if entries.len() == 0 {
        None
    } else {
        match first_failure_in_methods(reg, entries[0].1.entries()) {
            Some(h) => Some(h),
            None => first_failure(reg, entries.drop_first()),
        }
    }
}

/// Whether a chain held by the matcher agrees with its source.
pub open spec fn source_ok<Q: Clone, T: Clone, R: Clone>(
    src: RouteSource<Arc<LoadedChain<Q, T, R>>>,
    v: Arc<LoadedChain<Q, T, R>>,
    reg: HandlerRegistry<Q, T, R>,
) -> bool {
    match src {
        RouteSource::Kept(w) => v == w,
        RouteSource::Loaded(pc) => chain_loaded(reg, pc, *v),
    }
}

/// Whether `routes` holds exactly the routes of `srcs`, each agreeing with
/// its source.
pub open spec fn realizes<Q: Clone, T: Clone, R: Clone>(
    routes: Map<Seq<SegmentView>, Map<Seq<char>, Arc<LoadedChain<Q, T, R>>>>,
    srcs: Map<Seq<SegmentView>, Map<Seq<char>, RouteSource<Arc<LoadedChain<Q, T, R>>>>>,
    reg: HandlerRegistry<Q, T, R>,
) -> bool {
    &&& routes.dom() == srcs.dom()
    &&& forall|p: Seq<SegmentView>| #[trigger] srcs.dom().contains(p) ==> {
        &&& routes[p].dom() == srcs[p].dom()
        &&& forall|m: Seq<char>| #[trigger] srcs[p].dom().contains(m) ==> source_ok(srcs[p][m], routes[p][m], reg)
    }
}

proof fn lemma_realizes_ensure_node<Q: Clone, T: Clone, R: Clone>(
    routes: Map<Seq<SegmentView>, Map<Seq<char>, Arc<LoadedChain<Q, T, R>>>>,
    srcs: Map<Seq<SegmentView>, Map<Seq<char>, RouteSource<Arc<LoadedChain<Q, T, R>>>>>,
    reg: HandlerRegistry<Q, T, R>,
    q: Seq<SegmentView>,
)
    requires
        realizes(routes, srcs, reg),
    ensures
        realizes(ensure_node(routes, q), ensure_node(srcs, q), reg),
{
    let r2 = ensure_node(routes, q);
    let s2 = ensure_node(srcs, q);
    assert(r2.dom() =~= s2.dom());
    assert forall|p: Seq<SegmentView>| #[trigger] s2.dom().contains(p) implies {
        &&& r2[p].dom() == s2[p].dom()
        &&& forall|m: Seq<char>| #[trigger] s2[p].dom().contains(m) ==> source_ok(s2[p][m], r2[p][m], reg)
    } by {
        if !srcs.dom().contains(q) && p == q {
            assert(r2[p].dom() =~= s2[p].dom());
        }
    }
}

proof fn lemma_realizes_insert<Q: Clone, T: Clone, R: Clone>(
    routes: Map<Seq<SegmentView>, Map<Seq<char>, Arc<LoadedChain<Q, T, R>>>>,
    srcs: Map<Seq<SegmentView>, Map<Seq<char>, RouteSource<Arc<LoadedChain<Q, T, R>>>>>,
    reg: HandlerRegistry<Q, T, R>,
    p: Seq<SegmentView>,
    m: Seq<char>,
    pc: PathChainView,
    chain: Arc<LoadedChain<Q, T, R>>,
)
    requires
        realizes(routes, srcs, reg),
        srcs.dom().contains(p),
        chain_loaded(reg, pc, *chain),
    ensures
        realizes(
            routes.insert(p, routes[p].insert(m, chain)),
            srcs.insert(p, srcs[p].insert(m, RouteSource::Loaded(pc))),
            reg,
        ),
{
    let r2 = routes.insert(p, routes[p].insert(m, chain));
    let s2 = srcs.insert(p, srcs[p].insert(m, RouteSource::Loaded(pc)));
    assert(r2.dom() =~= s2.dom());
    assert forall|q: Seq<SegmentView>| #[trigger] s2.dom().contains(q) implies {
        &&& r2[q].dom() == s2[q].dom()
        &&& forall|m2: Seq<char>| #[trigger] s2[q].dom().contains(m2) ==> source_ok(s2[q][m2], r2[q][m2], reg)
    } by {
        if q == p {
            assert(r2[q].dom() =~= s2[q].dom());
        }
    }
}

proof fn lemma_realizes_kept<Q: Clone, T: Clone, R: Clone>(
    routes: Map<Seq<SegmentView>, Map<Seq<char>, Arc<LoadedChain<Q, T, R>>>>,
    reg: HandlerRegistry<Q, T, R>,
)
    ensures
        realizes(routes, kept_sources(routes), reg),
{
    let s = kept_sources(routes);
    assert(routes.dom() =~= s.dom());
    assert forall|p: Seq<SegmentView>| #[trigger] s.dom().contains(p) implies {
        &&& routes[p].dom() == s[p].dom()
        &&& forall|m: Seq<char>| #[trigger] s[p].dom().contains(m) ==> source_ok(s[p][m], routes[p][m], reg)
    } by {
        assert(routes[p].dom() =~= s[p].dom());
    }
}

proof fn lemma_add_methods_dom<V>(s: Map<Seq<SegmentView>, Map<Seq<char>, RouteSource<V>>>, p: Seq<SegmentView>, ms: Seq<(Seq<char>, PathChain)>)
    requires
        s.dom().contains(p),
    ensures
        add_methods(s, p, ms).dom() == s.dom(),
    decreases ms.len(),
{
    if ms.len() > 0 {
        lemma_add_methods_dom(s, p, ms.drop_last());
        assert(add_methods(s, p, ms).dom() =~= s.dom());
    }
}

proof fn lemma_first_failure_methods_skip<Q, T, R>(reg: HandlerRegistry<Q, T, R>, ms: Seq<(Seq<char>, PathChain)>, j: int)
    requires
        0 <= j <= ms.len(),
        forall|t: int| 0 <= t < j ==> chain_first_missing(reg, (#[trigger] ms[t]).1@) is None,
    ensures
        first_failure_in_methods(reg, ms) == first_failure_in_methods(reg, ms.skip(j)),
    decreases j,
{
    if j > 0 {
        assert(chain_first_missing(reg, ms[0].1@) is None);
        assert forall|t: int| 0 <= t < j - 1 implies chain_first_missing(reg, (#[trigger] ms.drop_first()[t]).1@) is None by {
            assert(ms.drop_first()[t] == ms[t + 1]);
        }
        lemma_first_failure_methods_skip(reg, ms.drop_first(), j - 1);
        assert(ms.drop_first().skip(j - 1) =~= ms.skip(j));
    } else {
        assert(ms.skip(0) =~= ms);
    }
}

proof fn lemma_first_failure_skip<Q, T, R>(reg: HandlerRegistry<Q, T, R>, es: Seq<(Seq<char>, StrMap<PathChain>)>, i: int)
    requires
        0 <= i <= es.len(),
        forall|t: int| 0 <= t < i ==> first_failure_in_methods(reg, (#[trigger] es[t]).1.entries()) is None,
    ensures
        first_failure(reg, es) == first_failure(reg, es.skip(i)),
    decreases i,
{
    if i > 0 {
        assert(first_failure_in_methods(reg, es[0].1.entries()) is None);
        assert forall|t: int| 0 <= t < i - 1 implies first_failure_in_methods(reg, (#[trigger] es.drop_first()[t]).1.entries()) is None by {
            assert(es.drop_first()[t] == es[t + 1]);
        }
        lemma_first_failure_skip(reg, es.drop_first(), i - 1);
        assert(es.drop_first().skip(i - 1) =~= es.skip(i));
    } else {
        assert(es.skip(0) =~= es);
    }
}

/// A node of the routing tree: children by segment, chains by method.
struct HttpPathMethodNode<Q, T, R> {
    children: Vec<(HttpPathSegment, usize)>,
    methods: StrMap<Arc<LoadedChain<Q, T, R>>>,
}

/// The chains of a method table, by method.
spec fn methods_map<V>(m: StrMap<V>) -> Map<Seq<char>, V> {
    Map::new(|k: Seq<char>| m.contains_spec(k), |k: Seq<char>| m.get_spec(k)->0)
}

spec fn has_node(paths: Seq<Seq<SegmentView>>, p: Seq<SegmentView>) -> bool {
    exists|i: int| 0 <= i < paths.len() && paths[i] == p
}

spec fn node_of(paths: Seq<Seq<SegmentView>>, p: Seq<SegmentView>) -> int {
    choose|i: int| 0 <= i < paths.len() && paths[i] == p
}

/// Matches HTTP paths and methods to chains through a tree of path
/// segments. Nodes live in an arena; node 0 is the root.
pub struct HttpPathMethodMatcher<Q, T, R> {
    nodes: Vec<HttpPathMethodNode<Q, T, R>>,
    node_paths: Ghost<Seq<Seq<SegmentView>>>,
}

impl<Q, T, R> HttpPathMethodMatcher<Q, T, R> {
    /// The routes held, by pattern and method.
    pub closed spec fn routes(&self) -> Map<Seq<SegmentView>, Map<Seq<char>, Arc<LoadedChain<Q, T, R>>>> {
        Map::new(
            |p: Seq<SegmentView>| has_node(self.node_paths@, p),
            |p: Seq<SegmentView>| methods_map(self.nodes@[node_of(self.node_paths@, p)].methods),
        )
    }

    spec fn child(&self, i: int, c: int) -> (SegmentView, int) {
        (self.nodes@[i].children@[c].0@, self.nodes@[i].children@[c].1 as int)
    }

    spec fn has_parent(&self, j: int) -> bool {
        exists|i: int, c: int| {
            &&& 0 <= i < self.node_paths@.len()
            &&& 0 <= c < self.nodes@[i].children@.len()
            &&& #[trigger] self.child(i, c).1 == j
        }
    }

    pub closed spec fn tree_wf(&self) -> bool {
        let paths = self.node_paths@;
        &&& self.nodes@.len() == paths.len()
        &&& paths.len() >= 1
        &&& paths[0] == Seq::<SegmentView>::empty()
        &&& forall|i: int, j: int| 0 <= i < paths.len() && 0 <= j < paths.len() && i != j ==> paths[i] != paths[j]
        &&& forall|i: int, c: int| 0 <= i < paths.len() && 0 <= c < self.nodes@[i].children@.len() ==> {
            &&& 0 <= (#[trigger] self.child(i, c)).1 < paths.len()
            &&& paths[self.child(i, c).1] == paths[i].push(self.child(i, c).0)
        }
        &&& forall|j: int| 0 < j < paths.len() ==> #[trigger] self.has_parent(j)
        &&& forall|i: int| 0 <= i < paths.len() ==> (#[trigger] self.nodes@[i]).methods.wf()
    }

    proof fn lemma_node_of(&self, i: int)
        requires
            self.tree_wf(),
            0 <= i < self.node_paths@.len(),
        ensures
            has_node(self.node_paths@, self.node_paths@[i]),
            node_of(self.node_paths@, self.node_paths@[i]) == i,
            self.routes().dom().contains(self.node_paths@[i]),
            self.routes()[self.node_paths@[i]] == methods_map(self.nodes@[i].methods),
    {
        assert(has_node(self.node_paths@, self.node_paths@[i]));
    }

    proof fn lemma_parent_node(&self, j: int)
        requires
            self.tree_wf(),
            0 < j < self.node_paths@.len(),
        ensures
            self.node_paths@[j].len() > 0,
            has_node(self.node_paths@, self.node_paths@[j].drop_last()),
    {
        assert(self.has_parent(j));
        let (i, c) = choose|i: int, c: int| {
            &&& 0 <= i < self.node_paths@.len()
            &&& 0 <= c < self.nodes@[i].children@.len()
            &&& #[trigger] self.child(i, c).1 == j
        };
        assert(self.node_paths@[j] == self.node_paths@[i].push(self.child(i, c).0));
        assert(self.node_paths@[j].drop_last() =~= self.node_paths@[i]);
    }

    /// Every prefix of a node's pattern is a node's pattern.
    proof fn lemma_prefix_closed(&self, p: Seq<SegmentView>, k: int)
        requires
            self.tree_wf(),
            has_node(self.node_paths@, p),
            0 <= k <= p.len(),
        ensures
            has_node(self.node_paths@, p.take(k)),
        decreases p.len() - k,
    {
        if k == p.len() {
            assert(p.take(k) =~= p);
        } else {
            let j = node_of(self.node_paths@, p);
            assert(j != 0) by {
                assert(p.len() > 0);
            }
            self.lemma_parent_node(j);
            let q = p.drop_last();
            self.lemma_prefix_closed(q, k);
            assert(q.take(k) =~= p.take(k));
        }
    }

    proof fn lemma_statics_reached(&self, segs: Seq<Seq<char>>, n: int)
        requires
            self.tree_wf(),
            0 <= n <= segs.len(),
            self.routes().dom().contains(statics(segs, n)),
        ensures
            forall|k: int| 0 <= k <= n ==> self.routes().dom().contains(#[trigger] statics(segs, k)),
    {
        assert forall|k: int| 0 <= k <= n implies self.routes().dom().contains(#[trigger] statics(segs, k)) by {
            self.lemma_prefix_closed(statics(segs, n), k);
            assert(statics(segs, n).take(k) =~= statics(segs, k));
        }
    }

    /// The chain that serves `path` and `method`: the route at the deepest
    /// node that the static segments of `path` reach when they are all
    /// used, else the deepest wildcard route passed on the way.
    pub fn lookup_route(&self, path: &str, method: &str) -> (r: Option<Arc<LoadedChain<Q, T, R>>>)
        requires
            self.tree_wf(),
        ensures
            r == lookup_spec(self.routes(), path@, method@),
    {
        let segments = split_path(path);
        let ghost segs = split_path_spec(path@);
        let ghost routes = self.routes();
        let mut best: Option<usize> = None;
        let mut current: usize = 0;
        let mut i: usize = 0;
        let mut done = false;
        proof {
            assert(statics(segs, 0) =~= Seq::<SegmentView>::empty());
        }
        while i < segments.len() && !done
            invariant
                self.tree_wf(),
                routes == self.routes(),
                strs_view(segments@) == segs,
                i <= segments@.len(),
                current < self.node_paths@.len(),
                self.node_paths@[current as int] == statics(segs, i as int),
                best matches Some(b) ==> b < self.node_paths@.len() && method_at(routes, self.node_paths@[b as int], method@) is Some,
                lookup_spec(routes, path@, method@) == (if done {
                    match best {
                        Some(b) => method_at(routes, self.node_paths@[b as int], method@),
                        None => None,
                    }
                } else {
                    walk(routes, segs, method@, i as int, match best {
                        Some(b) => method_at(routes, self.node_paths@[b as int], method@),
                        None => None,
                    })
                }),
            decreases segments@.len() - i, (if done { 0int } else { 1int }),
        {
            let ghost bv = match best {
                Some(b) => method_at(routes, self.node_paths@[b as int], method@),
                None => None,
            };
            let ghost wild = statics(segs, i as int).push(SegmentView::Any);
            match self.find_child(current, &HttpPathSegment::Any) {
                Some(w) => {
                    proof {
                        self.lemma_node_of(w as int);
                    }
                    if self.nodes[w].methods.contains_key(method) {
                        best = Some(w);
                    }
                },
                None => {},
            }
            let ghost b2 = match best {
                Some(b) => method_at(routes, self.node_paths@[b as int], method@),
                None => None,
            };
            proof {
                assert(b2 == match method_at(routes, wild, method@) {
                    Some(v) => Some(v),
                    None => bv,
                });
                assert(segments@[i as int]@ == segs[i as int]);
            }
            let seg = HttpPathSegment::Static(segments[i].to_owned());
            proof {
                assert(statics(segs, i + 1) =~= statics(segs, i as int).push(seg@));
            }
            match self.find_child(current, &seg) {
                Some(c) => {
                    proof {
                        self.lemma_node_of(c as int);
                    }
                    current = c;
                    i = i + 1;
                },
                None => {
                    done = true;
                },
            }
        }
        proof {
            self.lemma_node_of(current as int);
        }
        if !done && self.nodes[current].methods.contains_key(method) {
            best = Some(current);
        }
        match best {
            Some(b) => {
                proof {
                    self.lemma_node_of(b as int);
                }
                match self.nodes[b].methods.get(method) {
                    Some(v) => Some(arc_share(v)),
                    None => None,
                }
            },
            None => None,
        }
    }

    /// The node reached from `node` by `seg`, created without routes if it
    /// does not exist yet.
    fn child_or_insert(&mut self, node: usize, seg: HttpPathSegment) -> (r: usize)
        requires
            old(self).tree_wf(),
            node < old(self).node_paths@.len(),
        ensures
            final(self).tree_wf(),
            r < final(self).node_paths@.len(),
            final(self).node_paths@[r as int] == old(self).node_paths@[node as int].push(seg@),
            final(self).node_paths@.len() >= old(self).node_paths@.len(),
            forall|i: int| 0 <= i < old(self).node_paths@.len() ==> final(self).node_paths@[i] == old(self).node_paths@[i],
            final(self).routes() == ensure_node(old(self).routes(), old(self).node_paths@[node as int].push(seg@)),
    {
        match self.find_child(node, &seg) {
            Some(c) => {
                proof {
                    self.lemma_node_of(c as int);
                }
                c
            },
            None => {
                let ghost target = self.node_paths@[node as int].push(seg@);
                let ghost old_routes = self.routes();
                let idx = self.nodes.len();
                let ghost seg_view = seg@;
                self.nodes.push(HttpPathMethodNode { children: Vec::new(), methods: StrMap::new() });
                self.nodes[node].children.push((seg, idx));
                self.node_paths = Ghost(self.node_paths@.push(target));
                proof {
                    let n0 = old(self).node_paths@.len();
                    assert(self.child(node as int, old(self).nodes@[node as int].children@.len() as int) == (seg_view, idx as int));
                    assert forall|i: int, c: int| 0 <= i < n0 && 0 <= c < old(self).nodes@[i].children@.len()
                        implies #[trigger] self.child(i, c) == old(self).child(i, c) by {
                    }
                    assert forall|j: int| 0 < j < self.node_paths@.len() implies #[trigger] self.has_parent(j) by {
                        if j < n0 {
                            assert(old(self).has_parent(j));
                            let (i, c) = choose|i: int, c: int| {
                                &&& 0 <= i < old(self).node_paths@.len()
                                &&& 0 <= c < old(self).nodes@[i].children@.len()
                                &&& #[trigger] old(self).child(i, c).1 == j
                            };
                            assert(self.child(i, c) == old(self).child(i, c));
                        } else {
                            assert(self.child(node as int, old(self).nodes@[node as int].children@.len() as int).1 == j);
                        }
                    }
                    assert forall|i: int| 0 <= i < self.node_paths@.len() implies (#[trigger] self.nodes@[i]).methods.wf() by {
                        if i < n0 {
                            assert(self.nodes@[i].methods == old(self).nodes@[i].methods);
                        }
                    }
                    assert(self.tree_wf());
                    self.lemma_node_of(idx as int);
                    assert(methods_map(self.nodes@[idx as int].methods) =~= Map::<Seq<char>, Arc<LoadedChain<Q, T, R>>>::empty());
                    assert forall|p: Seq<SegmentView>| #[trigger] old_routes.dom().contains(p)
                        implies self.routes().dom().contains(p) && self.routes()[p] == old_routes[p] by {
                        let i = node_of(old(self).node_paths@, p);
                        old(self).lemma_node_of(i);
                        self.lemma_node_of(i);
                        assert(self.nodes@[i].methods == old(self).nodes@[i].methods);
                    }
                    assert forall|p: Seq<SegmentView>| #[trigger] self.routes().dom().contains(p)
                        implies old_routes.dom().contains(p) || p == target by {
                        let i = node_of(self.node_paths@, p);
                        if i < n0 {
                            old(self).lemma_node_of(i);
                        }
                    }
                    assert(self.routes() =~= ensure_node(old_routes, target));
                }
                idx
            },
        }
    }

    /// Attaches `chain` for `method` at `node`.
    fn insert_method(&mut self, node: usize, method: String, chain: Arc<LoadedChain<Q, T, R>>)
        requires
            old(self).tree_wf(),
            node < old(self).node_paths@.len(),
        ensures
            final(self).tree_wf(),
            final(self).node_paths@ == old(self).node_paths@,
            final(self).routes() == old(self).routes().insert(
                old(self).node_paths@[node as int],
                old(self).routes()[old(self).node_paths@[node as int]].insert(method@, chain),
            ),
    {
        let ghost old_routes = self.routes();
        let ghost p = self.node_paths@[node as int];
        proof {
            self.lemma_node_of(node as int);
            crate::collections::lemma_insert_distinct(self.nodes@[node as int].methods.entries(), method@, chain);
        }
        let ghost mname = method@;
        self.nodes[node].methods.insert(method, chain);
        proof {
            let n0 = self.node_paths@.len();
            assert forall|i: int, c: int| 0 <= i < n0 && 0 <= c < self.nodes@[i].children@.len()
                implies #[trigger] self.child(i, c) == old(self).child(i, c) by {
            }
            assert forall|j: int| 0 < j < n0 implies #[trigger] self.has_parent(j) by {
                assert(old(self).has_parent(j));
                let (i, c) = choose|i: int, c: int| {
                    &&& 0 <= i < old(self).node_paths@.len()
                    &&& 0 <= c < old(self).nodes@[i].children@.len()
                    &&& #[trigger] old(self).child(i, c).1 == j
                };
                assert(self.child(i, c) == old(self).child(i, c));
            }
            assert forall|i: int| 0 <= i < n0 implies (#[trigger] self.nodes@[i]).methods.wf() by {
                if i != node {
                    assert(self.nodes@[i].methods == old(self).nodes@[i].methods);
                }
            }
            assert(self.tree_wf());
            self.lemma_node_of(node as int);
            assert(methods_map(self.nodes@[node as int].methods) =~= old_routes[p].insert(mname, chain));
            assert forall|q: Seq<SegmentView>| #[trigger] old_routes.dom().contains(q) && q != p
                implies self.routes()[q] == old_routes[q] by {
                let i = node_of(old(self).node_paths@, q);
                old(self).lemma_node_of(i);
                self.lemma_node_of(i);
                assert(self.nodes@[i].methods == old(self).nodes@[i].methods);
            }
            assert(self.routes() =~= old_routes.insert(p, old_routes[p].insert(mname, chain)));
        }
    }

    /// Adds the routes of `config`, path by path in the order the
    /// configuration holds them, loading each chain from `reg`. Stops at the
    /// first chain that names a handler the registry lacks.
    pub fn parse_routes(&mut self, config: &RouterConfig, reg: &HandlerRegistry<Q, T, R>) -> (r: Result<(), PathMatcherError>)
        where
            Q: Clone,
            T: Clone,
            R: Clone,
        requires
            old(self).tree_wf(),
            config.wf(),
            reg.wf(),
        ensures
            final(self).tree_wf(),
            r is Ok == first_failure(*reg, config.paths.entries()) is None,
            r matches Err(e) ==> first_failure(*reg, config.paths.entries()) matches Some(h) && is_missing_handler_error(e, h),
            r is Ok ==> realizes(final(self).routes(), sources_fold(kept_sources(old(self).routes()), config.paths.entries()), *reg),
    {
        let ghost s0 = kept_sources(self.routes());
        let ghost entries = config.paths.entries();
        proof {
            lemma_realizes_kept(self.routes(), *reg);
            assert(entries.take(0) =~= Seq::<(Seq<char>, StrMap<PathChain>)>::empty());
        }
        let n = config.paths.len();
        for i in 0..n
            invariant
                self.tree_wf(),
                config.wf(),
                reg.wf(),
                entries == config.paths.entries(),
                n == entries.len(),
                realizes(self.routes(), sources_fold(s0, entries.take(i as int)), *reg),
                forall|t: int| 0 <= t < i ==> first_failure_in_methods(*reg, (#[trigger] entries[t]).1.entries()) is None,
        {
            let (path, methods) = config.paths.entry_at(i);
            let ghost si = sources_fold(s0, entries.take(i as int));
            let ghost sv = path_segments(path@);
            let ghost rp = route_path(path@);
            let ghost ms = methods.entries();
            proof {
                assert(entries.take(i + 1).drop_last() =~= entries.take(i as int));
                assert(methods.wf());
                self.lemma_node_of(0);
                assert(rp.take(0) =~= Seq::<SegmentView>::empty());
            }
            let segments = split_path(path.as_str());
            let mut current: usize = 0;
            let mut k: usize = 0;
            let mut stop = false;
            while k < segments.len() && !stop
                invariant
                    self.tree_wf(),
                    strs_view(segments@) == split_path_spec(path@),
                    sv == path_segments(path@),
                    rp == route_path(path@),
                    sv.len() == segments@.len(),
                    k <= segments@.len(),
                    current < self.node_paths@.len(),
                    k <= rp.len(),
                    self.node_paths@[current as int] == rp.take(k as int),
                    !stop ==> forall|t: int| 0 <= t < k ==> sv[t] != SegmentView::Any,
                    stop ==> k == rp.len(),
                    realizes(self.routes(), ensure_prefixes(si, rp, k as nat), *reg),
                decreases segments@.len() - k,
            {
                let seg = HttpPathSegment::from_str(segments[k]);
                proof {
                    assert(segments@[k as int]@ == split_path_spec(path@)[k as int]);
                    assert(seg@ == sv[k as int]);
                    lemma_truncate(sv, k as int);
                    if sv[k as int] == SegmentView::Any {
                        assert(rp =~= sv.take(k + 1));
                    } else {
                        lemma_truncate(sv, k + 1);
                        assert(rp.take(k + 1)[k as int] == sv.take(k + 1)[k as int]);
                    }
                    assert(rp.len() > k);
                    assert(rp[k as int] == seg@);
                    assert(rp.take(k + 1) =~= rp.take(k as int).push(seg@));
                }
                let is_wild = seg.is_any();
                let ghost before = self.routes();
                current = self.child_or_insert(current, seg);
                proof {
                    lemma_realizes_ensure_node(before, ensure_prefixes(si, rp, k as nat), *reg, rp.take(k + 1));
                }
                k = k + 1;
                if is_wild {
                    stop = true;
                }
            }
            proof {
                if !stop {
                    lemma_truncate(sv, k as int);
                }
                assert(rp.take(rp.len() as int) =~= rp);
                assert(k == rp.len());
            }
            let ghost e = ensure_prefixes(si, rp, rp.len());
            proof {
                self.lemma_node_of(current as int);
                assert(e.dom().contains(rp));
                assert(ms.take(0) =~= Seq::<(Seq<char>, PathChain)>::empty());
            }
            let m = methods.len();
            for j in 0..m
                invariant
                    self.tree_wf(),
                    reg.wf(),
                    methods.wf(),
                    ms == methods.entries(),
                    m == ms.len(),
                    current < self.node_paths@.len(),
                    self.node_paths@[current as int] == rp,
                    e.dom().contains(rp),
                    realizes(self.routes(), add_methods(e, rp, ms.take(j as int)), *reg),
                    forall|t: int| 0 <= t < j ==> chain_first_missing(*reg, (#[trigger] ms[t]).1@) is None,
                    entries == config.paths.entries(),
                    n == entries.len(),
                    i < n,
                    ms == entries[i as int].1.entries(),
                    forall|t: int| 0 <= t < i ==> first_failure_in_methods(*reg, (#[trigger] entries[t]).1.entries()) is None,
            {
                let (method, pc) = methods.entry_at(j);
                proof {
                    assert(ms.take(j + 1).drop_last() =~= ms.take(j as int));
                    lemma_add_methods_dom(e, rp, ms.take(j as int));
                }
                let chain = match Self::load_handlers(reg, pc) {
                    Ok(c) => c,
                    Err(err) => {
                        proof {
                            lemma_first_failure_methods_skip(*reg, ms, j as int);
                            assert(ms.skip(j as int)[0] == ms[j as int]);
                            lemma_first_failure_skip(*reg, entries, i as int);
                            assert(entries.skip(i as int)[0] == entries[i as int]);
                        }
                        return Err(err);
                    },
                };
                let ghost before = self.routes();
                let shared = Arc::new(chain);
                self.insert_method(current, method.clone(), shared);
                proof {
                    lemma_realizes_insert(before, add_methods(e, rp, ms.take(j as int)), *reg, rp, method@, pc@, shared);
                }
            }
            proof {
                assert(ms.take(m as int) =~= ms);
                lemma_first_failure_methods_skip(*reg, ms, m as int);
                assert(ms.skip(m as int) =~= Seq::<(Seq<char>, PathChain)>::empty());
            }
        }
        proof {
            assert(entries.take(n as int) =~= entries);
            lemma_first_failure_skip(*reg, entries, n as int);
            assert(entries.skip(n as int) =~= Seq::<(Seq<char>, StrMap<PathChain>)>::empty());
        }
        Ok(())
    }

    /// The node reached from `node` by the segment `seg`, if it exists.
    fn find_child(&self, node: usize, seg: &HttpPathSegment) -> (r: Option<usize>)
        requires
            self.tree_wf(),
            node < self.node_paths@.len(),
        ensures
            match r {
                Some(j) => j < self.node_paths@.len() && self.node_paths@[j as int] == self.node_paths@[node as int].push(seg@),
                None => !has_node(self.node_paths@, self.node_paths@[node as int].push(seg@)),
            },
    {
        let children = &self.nodes[node].children;
        let n = children.len();
        for c in 0..n
            invariant
                self.tree_wf(),
                node < self.node_paths@.len(),
                *children == self.nodes@[node as int].children,
                n == children@.len(),
                forall|d: int| 0 <= d < c ==> (#[trigger] self.child(node as int, d)).0 != seg@,
        {
            proof {
                assert(self.child(node as int, c as int).0 == children@[c as int].0@);
            }
            if children[c].0.same_as(seg) {
                proof {
                    let ch = self.child(node as int, c as int);
                }
                return Some(children[c].1);
            }
        }
        proof {
            let target = self.node_paths@[node as int].push(seg@);
            if has_node(self.node_paths@, target) {
                let j = node_of(self.node_paths@, target);
                assert(j != 0) by {
                    assert(self.node_paths@[j].len() > 0);
                }
                assert(self.has_parent(j));
                let (i, c) = choose|i: int, c: int| {
                    &&& 0 <= i < self.node_paths@.len()
                    &&& 0 <= c < self.nodes@[i].children@.len()
                    &&& #[trigger] self.child(i, c).1 == j
                };
                assert(self.node_paths@[j] == self.node_paths@[i].push(self.child(i, c).0));
                assert(self.node_paths@[i] =~= self.node_paths@[j].drop_last());
                assert(self.node_paths@[node as int] =~= target.drop_last());
                assert(i == node);
                assert(self.child(i, c).0 == target.last());
                assert(false);
            }
        }
        None
    }
}

proof fn lemma_walk_exact<V>(routes: Map<Seq<SegmentView>, Map<Seq<char>, V>>, segs: Seq<Seq<char>>, m: Seq<char>, i: int, best: Option<V>)
    requires
        0 <= i <= segs.len(),
        forall|k: int| i <= k <= segs.len() ==> routes.dom().contains(#[trigger] statics(segs, k)),
        method_at(routes, statics(segs, segs.len() as int), m) is Some,
    ensures
        walk(routes, segs, m, i, best) == method_at(routes, statics(segs, segs.len() as int), m),
    decreases segs.len() - i,
{
    if i < segs.len() {
        assert(routes.dom().contains(statics(segs, i + 1)));
        let b2 = match method_at(routes, statics(segs, i).push(SegmentView::Any), m) {
            Some(v) => Some(v),
            None => best,
        };
        lemma_walk_exact(routes, segs, m, i + 1, b2);
    }
}

proof fn lemma_walk_some<V>(routes: Map<Seq<SegmentView>, Map<Seq<char>, V>>, segs: Seq<Seq<char>>, m: Seq<char>, i: int, best: Option<V>)
    requires
        best is Some,
    ensures
        walk(routes, segs, m, i, best) is Some,
    decreases segs.len() - i,
{
    if 0 <= i < segs.len() {
        let b2 = match method_at(routes, statics(segs, i).push(SegmentView::Any), m) {
            Some(v) => Some(v),
            None => best,
        };
        if routes.dom().contains(statics(segs, i + 1)) {
            lemma_walk_some(routes, segs, m, i + 1, b2);
        }
    }
}

proof fn lemma_walk_wild<V>(routes: Map<Seq<SegmentView>, Map<Seq<char>, V>>, segs: Seq<Seq<char>>, m: Seq<char>, i: int, best: Option<V>, k: int)
    requires
        0 <= i <= k < segs.len(),
        forall|t: int| i <= t <= k ==> routes.dom().contains(#[trigger] statics(segs, t)),
        method_at(routes, statics(segs, k).push(SegmentView::Any), m) is Some,
    ensures
        walk(routes, segs, m, i, best) is Some,
    decreases k - i,
{
    let b2 = match method_at(routes, statics(segs, i).push(SegmentView::Any), m) {
        Some(v) => Some(v),
        None => best,
    };
    if i == k {
        if routes.dom().contains(statics(segs, i + 1)) {
            lemma_walk_some(routes, segs, m, i + 1, b2);
        }
    } else {
        assert(routes.dom().contains(statics(segs, i + 1)));
        lemma_walk_wild(routes, segs, m, i + 1, b2, k);
    }
}

/// A route whose pattern is exactly the static segments of a request path
/// serves that path: it wins over every wildcard route.
pub proof fn lemma_lookup_exact_route<Q, T, R>(matcher: HttpPathMethodMatcher<Q, T, R>, path: Seq<char>, method: Seq<char>)
    requires
        matcher.tree_wf(),
        method_at(matcher.routes(), statics(split_path_spec(path), split_path_spec(path).len() as int), method) is Some,
    ensures
        lookup_spec(matcher.routes(), path, method)
            == method_at(matcher.routes(), statics(split_path_spec(path), split_path_spec(path).len() as int), method),
{
    let segs = split_path_spec(path);
    matcher.lemma_statics_reached(segs, segs.len() as int);
    lemma_walk_exact(matcher.routes(), segs, method, 0, None);
}

proof fn lemma_walk_found<V>(routes: Map<Seq<SegmentView>, Map<Seq<char>, V>>, segs: Seq<Seq<char>>, m: Seq<char>, i: int, best: Option<V>)
    requires
        0 <= i <= segs.len(),
    ensures
        walk(routes, segs, m, i, best) matches Some(v) ==> {
            ||| best == Some(v)
            ||| method_at(routes, statics(segs, segs.len() as int), m) == Some(v)
            ||| exists|k: int| i <= k < segs.len()
                && #[trigger] method_at(routes, statics(segs, k).push(SegmentView::Any), m) == Some(v)
        },
    decreases segs.len() - i,
{
    if i < segs.len() {
        let w = method_at(routes, statics(segs, i).push(SegmentView::Any), m);
        let b2 = match w {
            Some(v) => Some(v),
            None => best,
        };
        if routes.dom().contains(statics(segs, i + 1)) {
            lemma_walk_found(routes, segs, m, i + 1, b2);
        }
    }
}

proof fn lemma_walk_keep<V>(routes: Map<Seq<SegmentView>, Map<Seq<char>, V>>, segs: Seq<Seq<char>>, m: Seq<char>, i: int, best: Option<V>)
    requires
        0 <= i <= segs.len(),
        forall|t: int| i <= t < segs.len() ==> #[trigger] method_at(routes, statics(segs, t).push(SegmentView::Any), m) is None,
        method_at(routes, statics(segs, segs.len() as int), m) is None,
    ensures
        walk(routes, segs, m, i, best) == best,
    decreases segs.len() - i,
{
    if i < segs.len() {
        assert(method_at(routes, statics(segs, i).push(SegmentView::Any), m) is None);
        if routes.dom().contains(statics(segs, i + 1)) {
            lemma_walk_keep(routes, segs, m, i + 1, best);
        }
    }
}

proof fn lemma_walk_deepest<V>(routes: Map<Seq<SegmentView>, Map<Seq<char>, V>>, segs: Seq<Seq<char>>, m: Seq<char>, i: int, best: Option<V>, k: int)
    requires
        0 <= i <= k < segs.len(),
        forall|t: int| i <= t <= k ==> routes.dom().contains(#[trigger] statics(segs, t)),
        method_at(routes, statics(segs, k).push(SegmentView::Any), m) is Some,
        forall|t: int| k < t < segs.len() ==> #[trigger] method_at(routes, statics(segs, t).push(SegmentView::Any), m) is None,
        method_at(routes, statics(segs, segs.len() as int), m) is None,
    ensures
        walk(routes, segs, m, i, best) == method_at(routes, statics(segs, k).push(SegmentView::Any), m),
    decreases k - i,
{
    let b2 = match method_at(routes, statics(segs, i).push(SegmentView::Any), m) {
        Some(v) => Some(v),
        None => best,
    };
    if i == k {
        if routes.dom().contains(statics(segs, i + 1)) {
            lemma_walk_keep(routes, segs, m, i + 1, b2);
        }
    } else {
        assert(routes.dom().contains(statics(segs, i + 1)));
        lemma_walk_deepest(routes, segs, m, i + 1, b2, k);
    }
}

/// Without a static route for exactly the path's segments, the wildcard
/// route with the longest static prefix of the path serves it.
pub proof fn lemma_lookup_deepest_wildcard_route<Q, T, R>(matcher: HttpPathMethodMatcher<Q, T, R>, path: Seq<char>, method: Seq<char>, k: int)
    requires
        matcher.tree_wf(),
        0 <= k < split_path_spec(path).len(),
        method_at(matcher.routes(), statics(split_path_spec(path), k).push(SegmentView::Any), method) is Some,
        forall|t: int| k < t < split_path_spec(path).len()
            ==> #[trigger] method_at(matcher.routes(), statics(split_path_spec(path), t).push(SegmentView::Any), method) is None,
        method_at(matcher.routes(), statics(split_path_spec(path), split_path_spec(path).len() as int), method) is None,
    ensures
        lookup_spec(matcher.routes(), path, method)
            == method_at(matcher.routes(), statics(split_path_spec(path), k).push(SegmentView::Any), method),
{
    let segs = split_path_spec(path);
    let w = statics(segs, k).push(SegmentView::Any);
    matcher.lemma_prefix_closed(w, k);
    assert(w.take(k) =~= statics(segs, k));
    matcher.lemma_statics_reached(segs, k);
    lemma_walk_deepest(matcher.routes(), segs, method, 0, None, k);
}

/// A request path is served only by a route that matches it: a static
/// route whose segments are exactly the path's, or a wildcard route whose
/// static prefix is a proper prefix of the path's segments.
pub proof fn lemma_lookup_only_matching_routes<Q, T, R>(matcher: HttpPathMethodMatcher<Q, T, R>, path: Seq<char>, method: Seq<char>)
    requires
        matcher.tree_wf(),
    ensures
        lookup_spec(matcher.routes(), path, method) matches Some(v) ==> {
            let segs = split_path_spec(path);
            ||| method_at(matcher.routes(), statics(segs, segs.len() as int), method) == Some(v)
            ||| exists|k: int| 0 <= k < segs.len()
                && #[trigger] method_at(matcher.routes(), statics(segs, k).push(SegmentView::Any), method) == Some(v)
        },
{
    lemma_walk_found(matcher.routes(), split_path_spec(path), method, 0, None);
}

/// A wildcard route for a prefix of the static segments of a request path
/// makes the path served, whatever follows the prefix.
pub proof fn lemma_lookup_wildcard_route<Q, T, R>(matcher: HttpPathMethodMatcher<Q, T, R>, path: Seq<char>, method: Seq<char>, k: int)
    requires
        matcher.tree_wf(),
        0 <= k < split_path_spec(path).len(),
        method_at(matcher.routes(), statics(split_path_spec(path), k).push(SegmentView::Any), method) is Some,
    ensures
        lookup_spec(matcher.routes(), path, method) is Some,
{
    let segs = split_path_spec(path);
    let w = statics(segs, k).push(SegmentView::Any);
    let j = node_of(matcher.node_paths@, w);
    matcher.lemma_prefix_closed(w, k);
    assert(w.take(k) =~= statics(segs, k));
    matcher.lemma_statics_reached(segs, k);
    lemma_walk_wild(matcher.routes(), segs, method, 0, None, k);
}

proof fn lemma_ensure_node_keeps<V>(s: Map<Seq<SegmentView>, Map<Seq<char>, V>>, q: Seq<SegmentView>)
    ensures
        ensure_node(s, q).dom().contains(q),
        forall|p: Seq<SegmentView>| #[trigger] s.dom().contains(p) ==> ensure_node(s, q).dom().contains(p) && ensure_node(s, q)[p] == s[p],
{
}

proof fn lemma_ensure_prefixes_keeps<V>(s: Map<Seq<SegmentView>, Map<Seq<char>, V>>, p: Seq<SegmentView>, k: nat)
    ensures
        ensure_prefixes(s, p, k).dom().contains(p.take(k as int)),
        forall|q: Seq<SegmentView>| #[trigger] s.dom().contains(q) ==> ensure_prefixes(s, p, k).dom().contains(q) && ensure_prefixes(s, p, k)[q] == s[q],
    decreases k,
{
    if k == 0 {
        lemma_ensure_node_keeps(s, p.take(0));
    } else {
        lemma_ensure_prefixes_keeps(s, p, (k - 1) as nat);
        lemma_ensure_node_keeps(ensure_prefixes(s, p, (k - 1) as nat), p.take(k as int));
    }
}

proof fn lemma_add_methods_value<V>(
    s: Map<Seq<SegmentView>, Map<Seq<char>, RouteSource<V>>>,
    p: Seq<SegmentView>,
    ms: Seq<(Seq<char>, PathChain)>,
    m: Seq<char>,
)
    requires
        s.dom().contains(p),
        keys_distinct(ms),
    ensures
        add_methods(s, p, ms).dom().contains(p),
        forall|q: Seq<SegmentView>| #[trigger] s.dom().contains(q) && q != p ==> add_methods(s, p, ms)[q] == s[q],
        has_key(ms, m) ==> add_methods(s, p, ms)[p].dom().contains(m)
            && add_methods(s, p, ms)[p][m] == RouteSource::<V>::Loaded(entries_get(ms, m)->0@),
    decreases ms.len(),
{
    if ms.len() > 0 {
        let prev = ms.drop_last();
        assert(keys_distinct(prev));
        lemma_add_methods_value(s, p, prev, m);
        lemma_add_methods_dom(s, p, prev);
        if has_key(ms, m) {
            let i = key_index(ms, m);
            if ms.last().0 == m {
                crate::collections::lemma_key_index(ms, m, ms.len() - 1);
            } else {
                assert(i < ms.len() - 1);
                assert(prev[i].0 == m);
                crate::collections::lemma_key_index(prev, m, i);
                crate::collections::lemma_key_index(ms, m, i);
            }
        }
    }
}

proof fn lemma_fold_source<V>(
    s0: Map<Seq<SegmentView>, Map<Seq<char>, RouteSource<V>>>,
    es: Seq<(Seq<char>, StrMap<PathChain>)>,
    i: int,
    m: Seq<char>,
)
    requires
        0 <= i < es.len(),
        forall|j: int| 0 <= j < es.len() && j != i ==> route_path((#[trigger] es[j]).0) != route_path(es[i].0),
        forall|j: int| 0 <= j < es.len() ==> (#[trigger] es[j]).1.wf(),
        has_key(es[i].1.entries(), m),
    ensures
        sources_fold(s0, es).dom().contains(route_path(es[i].0)),
        sources_fold(s0, es)[route_path(es[i].0)].dom().contains(m),
        sources_fold(s0, es)[route_path(es[i].0)][m] == RouteSource::<V>::Loaded(entries_get(es[i].1.entries(), m)->0@),
    decreases es.len(),
{
    let q = route_path(es[i].0);
    let prev = es.drop_last();
    let sp = sources_fold(s0, prev);
    let last = es.last();
    let rp = route_path(last.0);
    let e = ensure_prefixes(sp, rp, rp.len());
    lemma_ensure_prefixes_keeps(sp, rp, rp.len());
    assert(rp.take(rp.len() as int) =~= rp);
    if i == es.len() - 1 {
        lemma_add_methods_value(e, rp, last.1.entries(), m);
    } else {
        assert forall|j: int| 0 <= j < prev.len() && j != i implies route_path((#[trigger] prev[j]).0) != route_path(prev[i].0) by {
            assert(prev[j] == es[j]);
        }
        assert forall|j: int| 0 <= j < prev.len() implies (#[trigger] prev[j]).1.wf() by {
            assert(prev[j] == es[j]);
        }
        lemma_fold_source(s0, prev, i, m);
        assert(rp != q);
        assert(last.1.wf());
        lemma_add_methods_value(e, rp, last.1.entries(), m);
        lemma_add_methods_dom(e, rp, last.1.entries());
    }
}

/// A configured path without wildcard segments, whose pattern no other
/// configured path shares, is served for each of its methods by the chain
/// loaded from its configuration, once a matcher has been built from it.
pub proof fn lemma_configured_route_served<Q: Clone, T: Clone, R: Clone>(
    matcher: HttpPathMethodMatcher<Q, T, R>,
    config: RouterConfig,
    reg: HandlerRegistry<Q, T, R>,
    i: int,
    method: Seq<char>,
)
    requires
        matcher.tree_wf(),
        config.wf(),
        realizes(matcher.routes(), sources_fold(kept_sources(root_only()), config.paths.entries()), reg),
        0 <= i < config.paths.entries().len(),
        forall|t: int| 0 <= t < split_path_spec(config.paths.entries()[i].0).len()
            ==> #[trigger] split_path_spec(config.paths.entries()[i].0)[t] != "*"@,
        forall|j: int| 0 <= j < config.paths.entries().len() && j != i
            ==> route_path((#[trigger] config.paths.entries()[j]).0) != route_path(config.paths.entries()[i].0),
        has_key(config.paths.entries()[i].1.entries(), method),
    ensures
        lookup_spec(matcher.routes(), config.paths.entries()[i].0, method) matches Some(c)
            && chain_loaded(reg, entries_get(config.paths.entries()[i].1.entries(), method)->0@, *c),
{
    let es = config.paths.entries();
    let path = es[i].0;
    let segs = split_path_spec(path);
    let n = segs.len() as int;
    let q = route_path(path);
    let s0 = kept_sources::<Arc<LoadedChain<Q, T, R>>>(root_only());
    lemma_fold_source(s0, es, i, method);
    let srcs = sources_fold(s0, es);
    assert(srcs.dom().contains(q));
    assert(srcs[q].dom().contains(method));
    assert(source_ok(srcs[q][method], matcher.routes()[q][method], reg));
    let sv = path_segments(path);
    assert forall|t: int| 0 <= t < n implies sv[t] != SegmentView::Any by {
        assert(sv[t] == segment_of(segs[t]));
    }
    lemma_truncate(sv, n);
    assert(q =~= statics(segs, n)) by {
        assert(segs.take(n) =~= segs);
        assert forall|t: int| 0 <= t < n implies q[t] == statics(segs, n)[t] by {
            assert(sv[t] == segment_of(segs[t]));
        }
    }
    lemma_lookup_exact_route(matcher, path, method);
}

/// A trailing slash does not change which route serves a path.
pub proof fn lemma_lookup_trailing_slash<V>(routes: Map<Seq<SegmentView>, Map<Seq<char>, V>>, path: Seq<char>, method: Seq<char>)
    ensures
        lookup_spec(routes, path.push('/'), method) == lookup_spec(routes, path, method),
{
    assert(path.push('/').drop_last() =~= path);
    assert(split_path_spec(path.push('/')) =~= split_path_spec(path));
}

/// The routes of a matcher that holds only the root.
pub open spec fn root_only<V>() -> Map<Seq<SegmentView>, Map<Seq<char>, V>> {
    Map::empty().insert(Seq::empty(), Map::empty())
}

impl<Q: Clone, T: Clone, R: Clone> RouteKeyMatcher<Q, T, R> for HttpPathMethodMatcher<Q, T, R> {
    open spec fn inv(&self) -> bool {
        self.tree_wf()
    }

    fn parse_config(
        &mut self,
        route_config: &RouterConfig,
        handler_registry: &HandlerRegistry<Q, T, R>,
    ) -> (r: Result<(), PathMatcherError>)
        ensures
            r is Ok == first_failure(*handler_registry, route_config.paths.entries()) is None,
            r matches Err(e) ==> first_failure(*handler_registry, route_config.paths.entries()) matches Some(h)
                && is_missing_handler_error(e, h),
            r is Ok ==> realizes(
                final(self).routes(),
                sources_fold(kept_sources(old(self).routes()), route_config.paths.entries()),
                *handler_registry,
            ),
    {
        self.parse_routes(route_config, handler_registry)
    }

    fn lookup(&self, key: RouteKey<'_>) -> (r: Option<Arc<LoadedChain<Q, T, R>>>)
        ensures
            r == (match (key.path, key.method) {
                (Some(path), Some(method)) => lookup_spec(self.routes(), path@, method@),
                _ => None,
            }),
    {
        match (key.path, key.method) {
            (Some(path), Some(method)) => self.lookup_route(path, method),
            _ => None,
        }
    }

    fn new(config: &RouterConfig, handler_registry: &HandlerRegistry<Q, T, R>) -> (r: Result<Self, PathMatcherError>)
        ensures
            r is Ok == first_failure(*handler_registry, config.paths.entries()) is None,
            r matches Err(e) ==> first_failure(*handler_registry, config.paths.entries()) matches Some(h)
                && is_missing_handler_error(e, h),
            r matches Ok(m) ==> realizes(
                m.routes(),
                sources_fold(kept_sources(root_only()), config.paths.entries()),
                *handler_registry,
            ),
    {
        let mut nodes: Vec<HttpPathMethodNode<Q, T, R>> = Vec::new();
        nodes.push(HttpPathMethodNode { children: Vec::new(), methods: StrMap::new() });
        let ghost root_paths = seq![Seq::<SegmentView>::empty()];
        let mut matcher = HttpPathMethodMatcher { nodes, node_paths: Ghost(root_paths) };
        proof {
            assert forall|j: int| 0 < j < matcher.node_paths@.len() implies #[trigger] matcher.has_parent(j) by {
            }
            assert(matcher.tree_wf());
            matcher.lemma_node_of(0);
            assert(methods_map(matcher.nodes@[0].methods) =~= Map::<Seq<char>, Arc<LoadedChain<Q, T, R>>>::empty());
            assert forall|p: Seq<SegmentView>| #[trigger] matcher.routes().dom().contains(p) implies p == Seq::<SegmentView>::empty() by {
                let i = node_of(matcher.node_paths@, p);
            }
            assert(matcher.routes() =~= root_only());
        }
        match matcher.parse_routes(config, handler_registry) {
            Ok(()) => Ok(matcher),
            Err(e) => Err(e),
        }
    }
}

} // verus!
