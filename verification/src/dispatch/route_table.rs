//! Route tables: exact routes keyed by method and the FNV hash of the path,
//! and wildcard patterns grouped by method and first segment.
use vstd::prelude::*;
use std::sync::Arc;
use dashmap::DashMap;
use fnv::FnvBuildHasher;
use crate::dispatch::{Executable, PatSeg, PathSegment, RouteInfo, pat_views};
use crate::ext::{
    arc_share, fnv_hash_str, fnv_str_hash, route_entries, route_map_clear, route_map_contains,
    route_map_get, route_map_insert, route_map_new, route_map_remove, slot_entries, slots_get,
    slots_insert, slots_new,
};
use crate::router::path::http::{split_path, split_path_spec, strs_view};

verus! {

broadcast use vstd::string::group_string_axioms;

/// The key of an exact route: a method and the hash of a path.
#[derive(Debug, PartialEq, Eq, Hash)]
pub struct RouteKey {
    method: String,
    path_hash: u64,
}

impl View for RouteKey {
    type V = (Seq<char>, u64);

    closed spec fn view(&self) -> (Seq<char>, u64) {
        (self.method@, self.path_hash)
    }
}

/// The key view of `method` and `path`.
pub open spec fn route_key_of(method: Seq<char>, path: Seq<char>) -> (Seq<char>, u64) {
    (method, fnv_str_hash(path))
}

/// The value under `k`, if any.
pub open spec fn map_get<K, V>(m: Map<K, V>, k: K) -> Option<V> {
    if m.dom().contains(k) {
        Some(m[k])
    } else {
        None
    }
}

impl Clone for RouteKey {
    fn clone(&self) -> (r: Self)
        ensures
            r@ == self@,
    {
        RouteKey { method: self.method.clone(), path_hash: self.path_hash }
    }
}

impl RouteKey {
    /// The key of `method` and `path`.
    pub fn new(method: String, path: &str) -> (k: Self)
        ensures
            k@ == route_key_of(method@, path@),
    {
        let path_hash = fnv_hash_str(path);
        RouteKey { method, path_hash }
    }

    /// The key of `method` and `path`, copying the method.
    pub fn from_str(method: &str, path: &str) -> (k: Self)
        ensures
            k@ == route_key_of(method@, path@),
    {
        let path_hash = fnv_hash_str(path);
        RouteKey { method: method.to_owned(), path_hash }
    }
}

/// Exact routes keyed by method and path.
pub struct RouteTable {
    route_map: DashMap<RouteKey, Arc<Vec<Executable>>, FnvBuildHasher>,
}

impl RouteTable {
    /// The routes held, by key view.
    pub closed spec fn routes(&self) -> Map<(Seq<char>, u64), Arc<Vec<Executable>>> {
        route_entries(self.route_map)
    }

    /// An empty table.
    pub fn new() -> (t: Self)
        ensures
            t.routes().dom().is_empty(),
    {
        RouteTable { route_map: route_map_new() }
    }

    /// Routes `method` and `path` to `executables`, replacing any route
    /// under the same key.
    pub fn insert(&mut self, method: String, path: String, executables: Arc<Vec<Executable>>)
        ensures
            final(self).routes() == old(self).routes().insert(route_key_of(method@, path@), executables),
    {
        let key = RouteKey::new(method, path.as_str());
        route_map_insert(&mut self.route_map, key, executables);
    }

    /// The executables routed for `method` and `path`.
    pub fn get(&self, method: &str, path: &str) -> (r: Option<Arc<Vec<Executable>>>)
        ensures
            r == map_get(self.routes(), route_key_of(method@, path@)),
    {
        let key = RouteKey::from_str(method, path);
        route_map_get(&self.route_map, &key)
    }

    /// Whether a route exists for `method` and `path`.
    pub fn contains(&self, method: &str, path: &str) -> (b: bool)
        ensures
            b == self.routes().dom().contains(route_key_of(method@, path@)),
    {
        let key = RouteKey::from_str(method, path);
        route_map_contains(&self.route_map, &key)
    }

    /// Removes the route for `method` and `path`, returning its executables.
    pub fn remove(&mut self, method: &str, path: &str) -> (r: Option<Arc<Vec<Executable>>>)
        ensures
            final(self).routes() == old(self).routes().remove(route_key_of(method@, path@)),
            r == map_get(old(self).routes(), route_key_of(method@, path@)),
    {
        let key = RouteKey::from_str(method, path);
        route_map_remove(&mut self.route_map, &key)
    }

    /// Removes every route.
    pub fn clear(&mut self)
        ensures
            final(self).routes().dom().is_empty(),
    {
        route_map_clear(&mut self.route_map);
    }
}

/// Whether pattern segment `p` matches the path segment `s`.
pub open spec fn seg_matches(p: PatSeg, s: Seq<char>) -> bool {
    match p {
        PatSeg::Static(t) => t == s,
        PatSeg::Any(_) => true,
    }
}

/// Whether a pattern matches a path, segment by segment: same length, every
/// static segment equal, every wildcard matching one segment.
pub open spec fn pattern_matches(pat: Seq<PatSeg>, segs: Seq<Seq<char>>) -> bool {
    &&& pat.len() == segs.len()
    &&& forall|i: int| 0 <= i < pat.len() ==> #[trigger] seg_matches(pat[i], segs[i])
}

/// A pattern matches a path exactly when they have the same number of
/// segments and, at every position, the last included, a static segment
/// of the pattern is the path's segment there; a wildcard takes any one
/// segment.
pub proof fn lemma_pattern_matches_every_segment(pat: Seq<PatSeg>, segs: Seq<Seq<char>>)
    ensures
        pattern_matches(pat, segs) <==> (pat.len() == segs.len() && forall|i: int|
            0 <= i < pat.len() ==> match #[trigger] pat[i] {
                PatSeg::Static(t) => t == segs[i],
                PatSeg::Any(_) => true,
            }),
{
    if pat.len() == segs.len() && forall|i: int|
        0 <= i < pat.len() ==> match #[trigger] pat[i] {
            PatSeg::Static(t) => t == segs[i],
            PatSeg::Any(_) => true,
        } {
        assert forall|i: int| 0 <= i < pat.len() implies #[trigger] seg_matches(pat[i], segs[i]) by {
            match pat[i] {
                PatSeg::Static(t) => {},
                PatSeg::Any(_) => {},
            }
        }
    }
    if pattern_matches(pat, segs) {
        assert forall|i: int| 0 <= i < pat.len() implies match #[trigger] pat[i] {
            PatSeg::Static(t) => t == segs[i],
            PatSeg::Any(_) => true,
        } by {
            assert(seg_matches(pat[i], segs[i]));
        }
    }
}

/// The executables of the first pattern of `list` that matches `segs`.
pub open spec fn first_matching(list: Seq<(Seq<PatSeg>, Arc<Vec<Executable>>)>, segs: Seq<Seq<char>>) -> Option<Arc<Vec<Executable>>>
    decreases list.len(),
{
    if list.len() == 0 {
        None
    } else if pattern_matches(list[0].0, segs) {
        Some(list[0].1)
    } else {
        first_matching(list.drop_first(), segs)
    }
}

/// A group of patterns, by view: the patterns and their executables, in
/// the order they were added.
pub type PatternList = Seq<(Seq<PatSeg>, Arc<Vec<Executable>>)>;

/// The patterns of one method, grouped by their first segment.
pub struct PatternTable {
    groups: Vec<(PathSegment, Vec<(Vec<PathSegment>, Arc<Vec<Executable>>)>)>,
}

/// The view of a stored list of patterns.
pub open spec fn list_view(l: Seq<(Vec<PathSegment>, Arc<Vec<Executable>>)>) -> PatternList {
    l.map_values(|e: (Vec<PathSegment>, Arc<Vec<Executable>>)| (pat_views(e.0@), e.1))
}

impl PatternTable {
    /// The group keys, in order.
    spec fn key_at(&self, i: int) -> PatSeg {
        self.groups@[i].0@
    }

    /// No key occurs twice.
    pub closed spec fn wf(&self) -> bool {
        forall|i: int, j: int|
            0 <= i < self.groups@.len() && 0 <= j < self.groups@.len() && i != j
                ==> self.key_at(i) != self.key_at(j)
    }

    /// The patterns whose first segment is `k`, empty when there are none.
    pub closed spec fn group(&self, k: PatSeg) -> PatternList {
        if exists|i: int| 0 <= i < self.groups@.len() && self.key_at(i) == k {
            let i = choose|i: int| 0 <= i < self.groups@.len() && self.key_at(i) == k;
            list_view(self.groups@[i].1@)
        } else {
            Seq::empty()
        }
    }

    /// A table with no patterns.
    pub fn new() -> (t: Self)
        ensures
            t.wf(),
            forall|k: PatSeg| #[trigger] t.group(k) == Seq::<(Seq<PatSeg>, Arc<Vec<Executable>>)>::empty(),
    {
        PatternTable { groups: Vec::new() }
    }

    /// Position of the group keyed `k`.
    fn find(&self, k: &PathSegment) -> (r: Option<usize>)
        requires
            self.wf(),
        ensures
            match r {
                Some(i) => i < self.groups@.len() && self.key_at(i as int) == k@
                    && self.group(k@) == list_view(self.groups@[i as int].1@),
                None => forall|j: int| 0 <= j < self.groups@.len() ==> self.key_at(j) != k@,
            },
    {
        let mut i: usize = 0;
        while i < self.groups.len()
            invariant
                self.wf(),
                i <= self.groups@.len(),
                forall|j: int| 0 <= j < i ==> self.key_at(j) != k@,
            decreases self.groups@.len() - i,
        {
            if self.groups[i].0.same_as(k) {
                proof {
                    assert(self.key_at(i as int) == k@);
                    let c = choose|c: int| 0 <= c < self.groups@.len() && self.key_at(c) == k@;
                    assert(c == i);
                }
                return Some(i);
            }
            i = i + 1;
        }
        None
    }

    /// Adds a pattern with its executables at the end of the group of its
    /// first segment `first`.
    pub fn push(&mut self, first: PathSegment, pattern: Vec<PathSegment>, executables: Arc<Vec<Executable>>)
        requires
            old(self).wf(),
        ensures
            final(self).wf(),
            forall|k: PatSeg| #[trigger] final(self).group(k) == if k == first@ {
                old(self).group(k).push((pat_views(pattern@), executables))
            } else {
                old(self).group(k)
            },
    {
        let ghost entry = (pat_views(pattern@), executables);
        match self.find(&first) {
            Some(i) => {
                let (key, mut list) = self.groups.remove(i);
                list.push((pattern, executables));
                self.groups.insert(i, (key, list));
                proof {
                    assert(self.key_at(i as int) == first@);
                    assert forall|a: int| 0 <= a < self.groups@.len() implies self.key_at(a) == old(self).key_at(a) by {
                    }
                    assert(list_view(self.groups@[i as int].1@) =~= old(self).group(first@).push(entry));
                    assert forall|k: PatSeg| #[trigger] self.group(k) == if k == first@ {
                        old(self).group(k).push(entry)
                    } else {
                        old(self).group(k)
                    } by {
                        if k == first@ {
                            let c = choose|c: int| 0 <= c < self.groups@.len() && self.key_at(c) == k;
                            assert(c == i);
                        } else if exists|c: int| 0 <= c < self.groups@.len() && self.key_at(c) == k {
                            let c = choose|c: int| 0 <= c < self.groups@.len() && self.key_at(c) == k;
                            assert(c != i);
                            assert(old(self).key_at(c) == k);
                            let d = choose|d: int| 0 <= d < old(self).groups@.len() && old(self).key_at(d) == k;
                            assert(d == c);
                        } else {
                            assert forall|c: int| 0 <= c < old(self).groups@.len() implies old(self).key_at(c) != k by {
                                assert(self.key_at(c) == old(self).key_at(c));
                            }
                        }
                    }
                }
            },
            None => {
                let mut list = Vec::new();
                list.push((pattern, executables));
                let ghost n = self.groups@.len() as int;
                self.groups.push((first, list));
                proof {
                    assert forall|a: int| 0 <= a < n implies self.key_at(a) == old(self).key_at(a) by {
                    }
                    assert(list_view(self.groups@[n].1@) =~= seq![entry]);
                    assert forall|k: PatSeg| #[trigger] self.group(k) == if k == first@ {
                        old(self).group(k).push(entry)
                    } else {
                        old(self).group(k)
                    } by {
                        if k == first@ {
                            let c = choose|c: int| 0 <= c < self.groups@.len() && self.key_at(c) == k;
                            assert(self.key_at(n) == k);
                            assert(c == n);
                            assert(old(self).group(k) =~= Seq::<(Seq<PatSeg>, Arc<Vec<Executable>>)>::empty());
                            assert(old(self).group(k).push(entry) =~= seq![entry]);
                        } else if exists|c: int| 0 <= c < self.groups@.len() && self.key_at(c) == k {
                            let c = choose|c: int| 0 <= c < self.groups@.len() && self.key_at(c) == k;
                            assert(c != n);
                            assert(old(self).key_at(c) == k);
                            let d = choose|d: int| 0 <= d < old(self).groups@.len() && old(self).key_at(d) == k;
                            assert(d == c);
                        } else {
                            assert forall|c: int| 0 <= c < old(self).groups@.len() implies old(self).key_at(c) != k by {
                                assert(self.key_at(c) == old(self).key_at(c));
                            }
                        }
                    }
                }
            },
        }
    }

    /// The executables of the first pattern in the group of `segment` that
    /// matches the path segments.
    fn check_patterns(&self, path_segments: &Vec<&str>, segment: &PathSegment) -> (r: Option<Arc<Vec<Executable>>>)
        requires
            self.wf(),
        ensures
            r == first_matching(self.group(segment@), strs_view(path_segments@)),
    {
        let i = match self.find(segment) {
            Some(i) => i,
            None => {
                proof {
                    assert(!exists|c: int| 0 <= c < self.groups@.len() && self.key_at(c) == segment@);
                }
                return None;
            },
        };
        let list = &self.groups[i].1;
        let ghost lv = list_view(list@);
        assert(list@ == self.groups@[i as int].1@);
        assert(self.group(segment@) == lv);
        let ghost segs = strs_view(path_segments@);
        let mut j: usize = 0;
        assert(lv.skip(0) =~= lv);
        while j < list.len()
            invariant
                j <= list@.len(),
                lv == list_view(list@),
                segs == strs_view(path_segments@),
                self.group(segment@) == lv,
                first_matching(lv, segs) == first_matching(lv.skip(j as int), segs),
            decreases list@.len() - j,
        {
            let ghost rest = lv.skip(j as int);
            assert(rest[0] == lv[j as int]);
            assert(lv[j as int] == (pat_views(list@[j as int].0@), list@[j as int].1));
            if matches_segments(&list[j].0, path_segments) {
                assert(rest.len() > 0);
                assert(first_matching(rest, segs) == Some(rest[0].1));
                return Some(arc_share(&list[j].1));
            }
            assert(rest.drop_first() =~= lv.skip(j + 1));
            j = j + 1;
        }
        proof {
            assert(lv.skip(j as int) =~= Seq::<(Seq<PatSeg>, Arc<Vec<Executable>>)>::empty());
        }
        None
    }
}

/// Whether a pattern matches the segments of a path.
fn matches_segments(pattern_segments: &Vec<PathSegment>, path_segments: &Vec<&str>) -> (b: bool)
    ensures
        b == pattern_matches(pat_views(pattern_segments@), strs_view(path_segments@)),
{
    if pattern_segments.len() != path_segments.len() {
        return false;
    }
    let ghost pat = pat_views(pattern_segments@);
    let ghost segs = strs_view(path_segments@);
    let mut i: usize = 0;
    while i < pattern_segments.len()
        invariant
            i <= pattern_segments@.len(),
            pattern_segments@.len() == path_segments@.len(),
            pat == pat_views(pattern_segments@),
            segs == strs_view(path_segments@),
            forall|t: int| 0 <= t < i ==> #[trigger] seg_matches(pat[t], segs[t]),
        decreases pattern_segments@.len() - i,
    {
        match &pattern_segments[i] {
            PathSegment::Static(s) => {
                let p = path_segments[i].to_owned();
                if !(*s == p) {
                    proof {
                        assert(!seg_matches(pat[i as int], segs[i as int]));
                    }
                    return false;
                }
            },
            PathSegment::Any(_) => {},
        }
        assert(seg_matches(pat[i as int], segs[i as int]));
        i = i + 1;
    }
    true
}

/// The executables that a table routes a request to: the exact route for
/// its method and path when there is one; otherwise, among the patterns of
/// its method, the first that matches in the group of its first segment,
/// then the first that matches in the group of the `*` wildcard.
pub open spec fn lookup_spec(
    statics: Map<(Seq<char>, u64), Arc<Vec<Executable>>>,
    has_method: bool,
    group: spec_fn(PatSeg) -> PatternList,
    method: Seq<char>,
    path: Seq<char>,
) -> Option<Arc<Vec<Executable>>> {
    let key = route_key_of(method, path);
    if statics.dom().contains(key) {
        Some(statics[key])
    } else if !has_method {
        None
    } else {
        let segs = split_path_spec(path);
        if segs.len() == 0 {
            None
        } else {
            match first_matching(group(PatSeg::Static(segs[0])), segs) {
                Some(e) => Some(e),
                None => first_matching(group(PatSeg::Any("*"@)), segs),
            }
        }
    }
}

proof fn lemma_first_matching_found(list: PatternList, segs: Seq<Seq<char>>)
    ensures
        first_matching(list, segs) matches Some(v) ==> exists|j: int|
            0 <= j < list.len() && (#[trigger] list[j]).1 == v && pattern_matches(list[j].0, segs),
    decreases list.len(),
{
    if list.len() > 0 && !pattern_matches(list[0].0, segs) {
        lemma_first_matching_found(list.drop_first(), segs);
        if first_matching(list, segs) is Some {
            let v = first_matching(list, segs)->0;
            let j = choose|j: int| 0 <= j < list.drop_first().len() && (#[trigger] list.drop_first()[j]).1 == v
                && pattern_matches(list.drop_first()[j].0, segs);
            assert(list[j + 1] == list.drop_first()[j]);
        }
    } else if list.len() > 0 {
        assert(list[0].1 == list[0].1);
    }
}

/// A request is routed by its exact method and path first; without an
/// exact route, only to the executables of a pattern of its method that
/// matches its path, taken from the group of its first segment or from the
/// group of patterns that start with `*`.
pub proof fn lemma_lookup_exact_then_matching_pattern(
    statics: Map<(Seq<char>, u64), Arc<Vec<Executable>>>,
    has_method: bool,
    group: spec_fn(PatSeg) -> PatternList,
    method: Seq<char>,
    path: Seq<char>,
)
    ensures
        statics.dom().contains(route_key_of(method, path))
            ==> lookup_spec(statics, has_method, group, method, path) == Some(statics[route_key_of(method, path)]),
        !statics.dom().contains(route_key_of(method, path)) && !has_method
            ==> lookup_spec(statics, has_method, group, method, path) is None,
        !statics.dom().contains(route_key_of(method, path))
            ==> (lookup_spec(statics, has_method, group, method, path) matches Some(e) ==> {
                let segs = split_path_spec(path);
                exists|k: PatSeg, j: int|
                    (k == PatSeg::Static(segs[0]) || k == PatSeg::Any("*"@)) && 0 <= j < group(k).len()
                        && (#[trigger] group(k)[j]).1 == e && pattern_matches(group(k)[j].0, segs)
            }),
{
    let segs = split_path_spec(path);
    if segs.len() > 0 {
        let ks = PatSeg::Static(segs[0]);
        let kw = PatSeg::Any("*"@);
        lemma_first_matching_found(group(ks), segs);
        lemma_first_matching_found(group(kw), segs);
        if !statics.dom().contains(route_key_of(method, path)) && has_method {
            if first_matching(group(ks), segs) is Some {
                let v = first_matching(group(ks), segs)->0;
                let j = choose|j: int| 0 <= j < group(ks).len() && (#[trigger] group(ks)[j]).1 == v
                    && pattern_matches(group(ks)[j].0, segs);
                assert(group(ks)[j].1 == v);
            } else if first_matching(group(kw), segs) is Some {
                let v = first_matching(group(kw), segs)->0;
                let j = choose|j: int| 0 <= j < group(kw).len() && (#[trigger] group(kw)[j]).1 == v
                    && pattern_matches(group(kw)[j].0, segs);
                assert(group(kw)[j].1 == v);
            }
        }
    }
}

/// Exact routes, and wildcard patterns grouped by method and first segment.
pub struct DynamicRouteTable {
    static_routes: DashMap<RouteKey, Arc<Vec<Executable>>, FnvBuildHasher>,
    dynamic_patterns: DashMap<String, usize, FnvBuildHasher>,
    pattern_tables: Vec<PatternTable>,
}

impl DynamicRouteTable {
    /// The exact routes, by key view.
    pub closed spec fn statics(&self) -> Map<(Seq<char>, u64), Arc<Vec<Executable>>> {
        route_entries(self.static_routes)
    }

    /// Whether any pattern was added for `method`.
    pub closed spec fn has_method(&self, method: Seq<char>) -> bool {
        slot_entries(self.dynamic_patterns).dom().contains(method)
    }

    /// The patterns of `method` whose first segment is `k`.
    pub closed spec fn group(&self, method: Seq<char>, k: PatSeg) -> PatternList {
        if self.has_method(method) {
            self.pattern_tables@[slot_entries(self.dynamic_patterns)[method] as int].group(k)
        } else {
            Seq::empty()
        }
    }

    /// Every method has a table of its own.
    pub closed spec fn wf(&self) -> bool {
        let slots = slot_entries(self.dynamic_patterns);
        &&& forall|m: Seq<char>| #[trigger] slots.dom().contains(m) ==> slots[m] < self.pattern_tables@.len()
        &&& forall|m1: Seq<char>, m2: Seq<char>|
            #[trigger] slots.dom().contains(m1) && #[trigger] slots.dom().contains(m2) && m1 != m2
                ==> slots[m1] != slots[m2]
        &&& forall|i: int| 0 <= i < self.pattern_tables@.len() ==> (#[trigger] self.pattern_tables@[i]).wf()
    }

    /// An empty table.
    pub fn new() -> (t: Self)
        ensures
            t.wf(),
            t.statics().dom().is_empty(),
            forall|m: Seq<char>| !(#[trigger] t.has_method(m)),
            forall|m: Seq<char>, k: PatSeg| #[trigger] t.group(m, k) == Seq::<(Seq<PatSeg>, Arc<Vec<Executable>>)>::empty(),
    {
        DynamicRouteTable {
            static_routes: route_map_new(),
            dynamic_patterns: slots_new(),
            pattern_tables: Vec::new(),
        }
    }

    /// Routes `method` and `path` exactly to `executables`.
    pub fn add_static_route(&mut self, method: String, path: String, executables: Arc<Vec<Executable>>)
        requires
            old(self).wf(),
        ensures
            final(self).wf(),
            final(self).statics() == old(self).statics().insert(route_key_of(method@, path@), executables),
            forall|m: Seq<char>| #[trigger] final(self).has_method(m) == old(self).has_method(m),
            forall|m: Seq<char>, k: PatSeg| #[trigger] final(self).group(m, k) == old(self).group(m, k),
    {
        let key = RouteKey::new(method, path.as_str());
        route_map_insert(&mut self.static_routes, key, executables);
    }

    /// Adds a pattern for `method` at the end of the group of its first
    /// segment. An empty pattern is ignored.
    pub fn add_dynamic_route(&mut self, method: String, path_segments: Vec<PathSegment>, executables: Arc<Vec<Executable>>)
        requires
            old(self).wf(),
        ensures
            final(self).wf(),
            final(self).statics() == old(self).statics(),
            path_segments@.len() == 0 ==> forall|m: Seq<char>| #[trigger] final(self).has_method(m) == old(self).has_method(m),
            path_segments@.len() > 0 ==> forall|m: Seq<char>|
                #[trigger] final(self).has_method(m) == (old(self).has_method(m) || m == method@),
            forall|m: Seq<char>, k: PatSeg| #[trigger] final(self).group(m, k) == if path_segments@.len() > 0 && m == method@ && k == path_segments@[0]@ {
                old(self).group(m, k).push((pat_views(path_segments@), executables))
            } else {
                old(self).group(m, k)
            },
    {
        if path_segments.len() == 0 {
            return;
        }
        let ghost entry = (pat_views(path_segments@), executables);
        let ghost first_view = path_segments@[0]@;
        let first = path_segments[0].duplicate();
        let ghost old_slots = slot_entries(self.dynamic_patterns);
        match slots_get(&self.dynamic_patterns, method.as_str()) {
            Some(i) => {
                let mut table = self.pattern_tables.remove(i);
                table.push(first, path_segments, executables);
                self.pattern_tables.insert(i, table);
                proof {
                    assert forall|a: int| 0 <= a < self.pattern_tables@.len() implies (#[trigger] self.pattern_tables@[a]).wf() by {
                        if a != i {
                            assert(self.pattern_tables@[a] == old(self).pattern_tables@[a]);
                        }
                    }
                    assert forall|m: Seq<char>, k: PatSeg| #[trigger] self.group(m, k) == if m == method@ && k == first_view {
                        old(self).group(m, k).push(entry)
                    } else {
                        old(self).group(m, k)
                    } by {
                        if self.has_method(m) && m != method@ {
                            assert(old_slots[m] != i);
                        }
                    }
                }
            },
            None => {
                let mut table = PatternTable::new();
                table.push(first, path_segments, executables);
                let n = self.pattern_tables.len();
                self.pattern_tables.push(table);
                slots_insert(&mut self.dynamic_patterns, method, n);
                proof {
                    let slots = slot_entries(self.dynamic_patterns);
                    assert forall|m: Seq<char>| #[trigger] slots.dom().contains(m) implies slots[m] < self.pattern_tables@.len() by {
                        if m != method@ {
                            assert(old_slots.dom().contains(m));
                        }
                    }
                    assert forall|m1: Seq<char>, m2: Seq<char>|
                        #[trigger] slots.dom().contains(m1) && #[trigger] slots.dom().contains(m2) && m1 != m2
                            implies slots[m1] != slots[m2] by {
                        if m1 != method@ {
                            assert(old_slots.dom().contains(m1));
                        }
                        if m2 != method@ {
                            assert(old_slots.dom().contains(m2));
                        }
                    }
                    assert forall|a: int| 0 <= a < self.pattern_tables@.len() implies (#[trigger] self.pattern_tables@[a]).wf() by {
                        if a < n {
                            assert(self.pattern_tables@[a] == old(self).pattern_tables@[a]);
                        }
                    }
                    assert forall|m: Seq<char>, k: PatSeg| #[trigger] self.group(m, k) == if m == method@ && k == first_view {
                        old(self).group(m, k).push(entry)
                    } else {
                        old(self).group(m, k)
                    } by {
                        if m == method@ {
                            assert(self.pattern_tables@[n as int] == table);
                            assert(old(self).group(m, k) =~= Seq::<(Seq<PatSeg>, Arc<Vec<Executable>>)>::empty());
                        } else if old(self).has_method(m) {
                            assert(old_slots[m] < n);
                            assert(self.pattern_tables@[old_slots[m] as int] == old(self).pattern_tables@[old_slots[m] as int]);
                        }
                    }
                }
            },
        }
    }

    /// The executables that `route_info` is routed to.
    pub fn lookup(&self, route_info: &RouteInfo) -> (r: Option<Arc<Vec<Executable>>>)
        requires
            self.wf(),
        ensures
            r == lookup_spec(
                self.statics(),
                self.has_method(route_info.method@),
                |k: PatSeg| self.group(route_info.method@, k),
                route_info.method@,
                route_info.path@,
            ),
    {
        let key = RouteKey::from_str(route_info.method.as_str(), route_info.path.as_str());
        match route_map_get(&self.static_routes, &key) {
            Some(executables) => Some(executables),
            None => self.match_dynamic_route(route_info),
        }
    }

    /// Matches the request against the patterns of its method.
    fn match_dynamic_route(&self, route_info: &RouteInfo) -> (r: Option<Arc<Vec<Executable>>>)
        requires
            self.wf(),
        ensures
            r == (if !self.has_method(route_info.method@) {
                None
            } else {
                let segs = split_path_spec(route_info.path@);
                if segs.len() == 0 {
                    None
                } else {
                    match first_matching(self.group(route_info.method@, PatSeg::Static(segs[0])), segs) {
                        Some(e) => Some(e),
                        None => first_matching(self.group(route_info.method@, PatSeg::Any("*"@)), segs),
                    }
                }
            }),
    {
        let i = match slots_get(&self.dynamic_patterns, route_info.method.as_str()) {
            Some(i) => i,
            None => return None,
        };
        let table = &self.pattern_tables[i];
        let path_segments = split_path(route_info.path.as_str());
        if path_segments.len() == 0 {
            return None;
        }
        let first_segment = path_segments[0];
        let static_segment = PathSegment::Static(first_segment.to_owned());
        match table.check_patterns(&path_segments, &static_segment) {
            Some(executables) => return Some(executables),
            None => {},
        }
        let wildcard = PathSegment::Any("*".to_owned());
        table.check_patterns(&path_segments, &wildcard)
    }
}

proof fn lemma_first_matching_push(list: PatternList, segs: Seq<Seq<char>>, entry: (Seq<PatSeg>, Arc<Vec<Executable>>))
    requires
        first_matching(list, segs) is None,
        pattern_matches(entry.0, segs),
    ensures
        first_matching(list.push(entry), segs) == Some(entry.1),
    decreases list.len(),
{
    if list.len() > 0 {
        assert(list.push(entry).drop_first() =~= list.drop_first().push(entry));
        lemma_first_matching_push(list.drop_first(), segs, entry);
    }
}

/// An exact route added for a method and path is what a request with that
/// method and path is routed to.
pub proof fn lemma_added_static_route_found(
    statics: Map<(Seq<char>, u64), Arc<Vec<Executable>>>,
    has_method: bool,
    group: spec_fn(PatSeg) -> PatternList,
    method: Seq<char>,
    path: Seq<char>,
    executables: Arc<Vec<Executable>>,
)
    ensures
        lookup_spec(statics.insert(route_key_of(method, path), executables), has_method, group, method, path)
            == Some(executables),
{
}

/// A pattern added for a method is what a request of that method is routed
/// to when the pattern matches its path, starts with the path's first
/// segment, and neither an exact route nor an earlier pattern of the same
/// group matches it.
pub proof fn lemma_added_pattern_found(
    statics: Map<(Seq<char>, u64), Arc<Vec<Executable>>>,
    group: spec_fn(PatSeg) -> PatternList,
    method: Seq<char>,
    path: Seq<char>,
    pattern: Seq<PatSeg>,
    executables: Arc<Vec<Executable>>,
)
    requires
        !statics.dom().contains(route_key_of(method, path)),
        split_path_spec(path).len() > 0,
        pattern.len() > 0,
        pattern[0] == PatSeg::Static(split_path_spec(path)[0]),
        pattern_matches(pattern, split_path_spec(path)),
        first_matching(group(pattern[0]), split_path_spec(path)) is None,
    ensures
        lookup_spec(
            statics,
            true,
            |k: PatSeg| if k == pattern[0] { group(k).push((pattern, executables)) } else { group(k) },
            method,
            path,
        ) == Some(executables),
{
    lemma_first_matching_push(group(pattern[0]), split_path_spec(path), (pattern, executables));
}

} // verus!
