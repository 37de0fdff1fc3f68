//! Routing through a tree of path segments: each configured path is a
//! branch of the tree, split at every `/` (empty pieces included), and a
//! request walks the tree taking, at each node, the first child that
//! matches its next piece.
use vstd::prelude::*;
use std::sync::Arc;
use crate::collections::{StrMap, entries_get, entries_insert, has_key};
use crate::dispatch::{ExecView, Executable, PatSeg, PathConfig, PathSegment, RouterConfig, exec_views, pat_seg_of, pat_views};
use crate::dispatch::default_router::clone_executables;
use crate::dispatch::route_table::seg_matches;
use crate::router::path::http::strs_view;

verus! {

broadcast use vstd::string::group_string_axioms;

/// Splits `s` at every '/': the completed pieces and the piece still open.
pub open spec fn scan_all(s: Seq<char>) -> (Seq<Seq<char>>, Seq<char>)
    decreases s.len(),
{
    if s.len() == 0 {
        (Seq::empty(), Seq::empty())
    } else {
        let (done, cur) = scan_all(s.drop_last());
        if s.last() == '/' {
            (done.push(cur), Seq::empty())
        } else {
            (done, cur.push(s.last()))
        }
    }
}

/// The pieces of `s` between its '/' separators, empty ones included.
pub open spec fn split_all(s: Seq<char>) -> Seq<Seq<char>> {
    scan_all(s).0.push(scan_all(s).1)
}

/// Splits a path at every '/', keeping empty pieces.
pub fn split_all_exec<'a>(path: &'a str) -> (r: Vec<&'a str>)
    ensures
        strs_view(r@) == split_all(path@),
{
    let n = path.unicode_len();
    let mut pieces: Vec<&'a str> = Vec::new();
    let mut start: usize = 0;
    let mut i: usize = 0;
    proof {
        assert(path@.take(0) =~= Seq::<char>::empty());
        assert(strs_view(pieces@) =~= Seq::<Seq<char>>::empty());
        assert(path@.subrange(0, 0) =~= Seq::<char>::empty());
    }
    for c in it: path.chars()
        invariant
            n == path@.len(),
            it.seq() == path@,
            i == it.index(),
            start <= i <= n,
            scan_all(path@.take(i as int)).0 == strs_view(pieces@),
            scan_all(path@.take(i as int)).1 == path@.subrange(start as int, i as int),
    {
        proof {
            assert(path@.take(i + 1).drop_last() =~= path@.take(i as int));
            assert(path@.take(i + 1).last() == path@[i as int]);
        }
        if c == '/' {
            let piece = path.substring_char(start, i);
            let ghost old_pieces = pieces@;
            pieces.push(piece);
            proof {
                assert(strs_view(pieces@) =~= strs_view(old_pieces).push(piece@));
            }
            start = i + 1;
            i = i + 1;
            proof {
                assert(path@.subrange(start as int, i as int) =~= Seq::<char>::empty());
            }
        } else {
            i = i + 1;
            proof {
                assert(path@.subrange(start as int, i as int) =~= path@.subrange(start as int, i - 1).push(c));
            }
        }
    }
    proof {
        assert(path@.take(n as int) =~= path@);
    }
    let piece = path.substring_char(start, n);
    let ghost old_pieces = pieces@;
    pieces.push(piece);
    proof {
        assert(strs_view(pieces@) =~= strs_view(old_pieces).push(piece@));
    }
    pieces
}

/// The pattern of a configured path: its pieces, `*` as the wildcard.
pub open spec fn tree_pattern(path: Seq<char>) -> Seq<PatSeg> {
    split_all(path).map_values(|s: Seq<char>| pat_seg_of(s))
}

/// The first node of `order`, from position `k`, that is a child of `p`
/// whose segment matches `seg`.
pub open spec fn first_child_from(order: Seq<Seq<PatSeg>>, p: Seq<PatSeg>, seg: Seq<char>, k: int) -> Option<int>
    decreases order.len() - k,
{
    if k < 0 || k >= order.len() {
        None
    } else if order[k].len() == p.len() + 1 && order[k].drop_last() == p && seg_matches(order[k].last(), seg) {
        Some(k)
    } else {
        first_child_from(order, p, seg, k + 1)
    }
}

/// The value that `routes` holds for method `m` at node `p`, if any.
pub open spec fn route_at(routes: Map<Seq<PatSeg>, Map<Seq<char>, Seq<ExecView>>>, p: Seq<PatSeg>, m: Seq<char>) -> Option<Seq<ExecView>> {
    if routes.dom().contains(p) && routes[p].dom().contains(m) {
        Some(routes[p][m])
    } else {
        None
    }
}

/// The walk of a request from node `p` at piece `i`: at each node the
/// first child (in the order nodes were created) that matches the next
/// piece; at the end, the route of the node reached.
pub open spec fn tree_find(
    routes: Map<Seq<PatSeg>, Map<Seq<char>, Seq<ExecView>>>,
    order: Seq<Seq<PatSeg>>,
    p: Seq<PatSeg>,
    segs: Seq<Seq<char>>,
    i: int,
    m: Seq<char>,
) -> Option<Seq<ExecView>>
    decreases segs.len() - i,
{
    if i >= segs.len() {
        route_at(routes, p, m)
    } else {
        match first_child_from(order, p, segs[i], 0) {
            Some(k) => tree_find(routes, order, order[k], segs, i + 1, m),
            None => None,
        }
    }
}

/// A node of the tree: its children, by segment, in the order they were
/// added, and the executables of each method.
pub struct PathNode {
    children: Vec<(PathSegment, usize)>,
    methods: StrMap<Arc<Vec<Executable>>>,
}

impl PathNode {
    fn new() -> (n: Self)
        ensures
            n.children@.len() == 0,
            n.methods.wf(),
            n.methods.entries().len() == 0,
    {
        PathNode { children: Vec::new(), methods: StrMap::new() }
    }
}

/// The executables of a method table, by method and view.
pub open spec fn methods_view(m: StrMap<Arc<Vec<Executable>>>) -> Map<Seq<char>, Seq<ExecView>> {
    Map::new(|k: Seq<char>| m.contains_spec(k), |k: Seq<char>| exec_views(m.get_spec(k)->0@))
}

spec fn tree_has(paths: Seq<Seq<PatSeg>>, p: Seq<PatSeg>) -> bool {
    exists|i: int| 0 <= i < paths.len() && paths[i] == p
}

spec fn tree_index(paths: Seq<Seq<PatSeg>>, p: Seq<PatSeg>) -> int {
    choose|i: int| 0 <= i < paths.len() && paths[i] == p
}

/// Adds node `q` with no routes unless it exists.
pub open spec fn ensure_node_t(routes: Map<Seq<PatSeg>, Map<Seq<char>, Seq<ExecView>>>, q: Seq<PatSeg>) -> Map<Seq<PatSeg>, Map<Seq<char>, Seq<ExecView>>> {
    if routes.dom().contains(q) {
        routes
    } else {
        routes.insert(q, Map::empty())
    }
}

/// Adds the nodes of the prefixes of `p` of lengths 1 to `k`.
pub open spec fn ensure_prefixes_t(routes: Map<Seq<PatSeg>, Map<Seq<char>, Seq<ExecView>>>, p: Seq<PatSeg>, k: nat) -> Map<Seq<PatSeg>, Map<Seq<char>, Seq<ExecView>>>
    decreases k,
{
    if k == 0 {
        routes
    } else {
        ensure_node_t(ensure_prefixes_t(routes, p, (k - 1) as nat), p.take(k as int))
    }
}

/// The creation order after adding the prefixes of `p` of lengths 1 to `k`
/// that are not nodes yet.
pub open spec fn extend_order(order: Seq<Seq<PatSeg>>, p: Seq<PatSeg>, k: nat) -> Seq<Seq<PatSeg>>
    decreases k,
{
    if k == 0 {
        order
    } else {
        let o = extend_order(order, p, (k - 1) as nat);
        if o.contains(p.take(k as int)) {
            o
        } else {
            o.push(p.take(k as int))
        }
    }
}

/// Sets the executables of each method of `ms` at node `p`.
pub open spec fn add_methods_t(
    routes: Map<Seq<PatSeg>, Map<Seq<char>, Seq<ExecView>>>,
    p: Seq<PatSeg>,
    ms: Seq<(Seq<char>, Vec<Executable>)>,
) -> Map<Seq<PatSeg>, Map<Seq<char>, Seq<ExecView>>>
    decreases ms.len(),
{
    if ms.len() == 0 {
        routes
    } else {
        let r = add_methods_t(routes, p, ms.drop_last());
        r.insert(p, r[p].insert(ms.last().0, exec_views(ms.last().1@)))
    }
}

/// The routes after adding every configured path, in order.
pub open spec fn tree_routes_after(
    routes: Map<Seq<PatSeg>, Map<Seq<char>, Seq<ExecView>>>,
    paths: Seq<(Seq<char>, PathConfig)>,
) -> Map<Seq<PatSeg>, Map<Seq<char>, Seq<ExecView>>>
    decreases paths.len(),
{
    if paths.len() == 0 {
        routes
    } else {
        let r = tree_routes_after(routes, paths.drop_last());
        let p = tree_pattern(paths.last().0);
        add_methods_t(ensure_prefixes_t(r, p, p.len()), p, paths.last().1.methods.entries())
    }
}

/// The creation order of the nodes after adding every configured path.
pub open spec fn tree_order_after(order: Seq<Seq<PatSeg>>, paths: Seq<(Seq<char>, PathConfig)>) -> Seq<Seq<PatSeg>>
    decreases paths.len(),
{
    if paths.len() == 0 {
        order
    } else {
        let o = tree_order_after(order, paths.drop_last());
        let p = tree_pattern(paths.last().0);
        extend_order(o, p, p.len())
    }
}

/// The routes of a tree that holds only its root.
pub open spec fn root_routes() -> Map<Seq<PatSeg>, Map<Seq<char>, Seq<ExecView>>> {
    Map::empty().insert(Seq::empty(), Map::empty())
}

proof fn lemma_first_child_at(order: Seq<Seq<PatSeg>>, p: Seq<PatSeg>, seg: Seq<char>, k0: int, j: int)
    requires
        0 <= k0 <= j < order.len(),
        order[j].len() == p.len() + 1 && order[j].drop_last() == p && seg_matches(order[j].last(), seg),
        forall|k: int| k0 <= k < j ==> !(order[k].len() == p.len() + 1 && order[k].drop_last() == p
            && seg_matches(#[trigger] order[k].last(), seg)),
    ensures
        first_child_from(order, p, seg, k0) == Some(j),
    decreases j - k0,
{
    if k0 < j {
        lemma_first_child_at(order, p, seg, k0 + 1, j);
    }
}

proof fn lemma_first_child_none(order: Seq<Seq<PatSeg>>, p: Seq<PatSeg>, seg: Seq<char>, k0: int)
    requires
        0 <= k0,
        forall|k: int| k0 <= k < order.len() ==> !(order[k].len() == p.len() + 1 && order[k].drop_last() == p
            && seg_matches(#[trigger] order[k].last(), seg)),
    ensures
        first_child_from(order, p, seg, k0) is None,
    decreases order.len() - k0,
{
    if k0 < order.len() {
        lemma_first_child_none(order, p, seg, k0 + 1);
    }
}

/// Whether the segment of a child matches a piece of a request path.
fn segment_matches(segment: &PathSegment, piece: &str) -> (b: bool)
    ensures
        b == seg_matches(segment@, piece@),
{
    match segment {
        PathSegment::Static(s) => {
            let p = piece.to_owned();
            *s == p
        },
        PathSegment::Any(_) => true,
    }
}

/// Routes requests through a tree of the configured paths.
pub struct Router {
    nodes: Vec<PathNode>,
    node_paths: Ghost<Seq<Seq<PatSeg>>>,
}

impl Router {
    /// The patterns of the nodes, in the order the nodes were created.
    pub closed spec fn order(&self) -> Seq<Seq<PatSeg>> {
        self.node_paths@
    }

    /// The executables of each node and method, by view.
    pub closed spec fn routes(&self) -> Map<Seq<PatSeg>, Map<Seq<char>, Seq<ExecView>>> {
        Map::new(
            |p: Seq<PatSeg>| tree_has(self.node_paths@, p),
            |p: Seq<PatSeg>| methods_view(self.nodes@[tree_index(self.node_paths@, p)].methods),
        )
    }

    spec fn child(&self, i: int, c: int) -> (PatSeg, int) {
        (self.nodes@[i].children@[c].0@, self.nodes@[i].children@[c].1 as int)
    }

    spec fn is_child_of(&self, j: int, i: int) -> bool {
        exists|c: int| 0 <= c < self.nodes@[i].children@.len() && #[trigger] self.child(i, c).1 == j
    }

    /// The nodes match their patterns: every child extends its parent's
    /// pattern by its segment and was created after it, children are kept
    /// in creation order, and every node is a child of the node of its
    /// pattern's parent.
    pub closed spec fn wf(&self) -> bool {
        let paths = self.node_paths@;
        &&& self.nodes@.len() == paths.len()
        &&& paths.len() >= 1
        &&& paths[0] == Seq::<PatSeg>::empty()
        &&& forall|i: int, j: int| 0 <= i < paths.len() && 0 <= j < paths.len() && i != j ==> paths[i] != paths[j]
        &&& forall|i: int, c: int| 0 <= i < paths.len() && 0 <= c < self.nodes@[i].children@.len() ==> {
            &&& i < (#[trigger] self.child(i, c)).1 < paths.len()
            &&& paths[self.child(i, c).1] == paths[i].push(self.child(i, c).0)
        }
        &&& forall|i: int, c1: int, c2: int|
            0 <= i < paths.len() && 0 <= c1 < c2 < self.nodes@[i].children@.len()
                ==> (#[trigger] self.child(i, c1)).1 < (#[trigger] self.child(i, c2)).1
        &&& forall|i: int, j: int| 0 <= i < paths.len() && 0 < j < paths.len()
            && paths[j].len() == paths[i].len() + 1 && (#[trigger] paths[j]).drop_last() == #[trigger] paths[i]
                ==> self.is_child_of(j, i)
        &&& forall|j: int| 0 < j < paths.len() ==> (#[trigger] paths[j]).len() > 0 && tree_has(paths, paths[j].drop_last())
        &&& forall|i: int| 0 <= i < paths.len() ==> (#[trigger] self.nodes@[i]).methods.wf()
    }

    proof fn lemma_index(&self, i: int)
        requires
            self.wf(),
            0 <= i < self.node_paths@.len(),
        ensures
            tree_has(self.node_paths@, self.node_paths@[i]),
            tree_index(self.node_paths@, self.node_paths@[i]) == i,
            self.routes().dom().contains(self.node_paths@[i]),
            self.routes()[self.node_paths@[i]] == methods_view(self.nodes@[i].methods),
    {
        assert(tree_has(self.node_paths@, self.node_paths@[i]));
    }

    /// A tree with only its root.
    fn root_only() -> (r: Self)
        ensures
            r.wf(),
            r.order() == seq![Seq::<PatSeg>::empty()],
            r.routes() == root_routes(),
    {
        let mut nodes: Vec<PathNode> = Vec::new();
        nodes.push(PathNode::new());
        let ghost root_paths = seq![Seq::<PatSeg>::empty()];
        let r = Router { nodes, node_paths: Ghost(root_paths) };
        proof {
            r.lemma_index(0);
            assert(methods_view(r.nodes@[0].methods) =~= Map::<Seq<char>, Seq<ExecView>>::empty());
            assert forall|p: Seq<PatSeg>| #[trigger] r.routes().dom().contains(p) implies p == Seq::<PatSeg>::empty() by {
            }
            assert(r.routes() =~= root_routes());
        }
        r
    }

    /// The child of `node` whose segment is exactly `seg`.
    fn find_child(&self, node: usize, seg: &PathSegment) -> (r: Option<usize>)
        requires
            self.wf(),
            node < self.node_paths@.len(),
        ensures
            match r {
                Some(c) => c < self.node_paths@.len() && self.node_paths@[c as int] == self.node_paths@[node as int].push(seg@),
                None => !tree_has(self.node_paths@, self.node_paths@[node as int].push(seg@)),
            },
    {
        let ghost paths = self.node_paths@;
        let ghost target = paths[node as int].push(seg@);
        let children = &self.nodes[node].children;
        let mut c: usize = 0;
        while c < children.len()
            invariant
                self.wf(),
                node < paths.len(),
                paths == self.node_paths@,
                target == paths[node as int].push(seg@),
                children == self.nodes@[node as int].children,
                c <= children@.len(),
                forall|d: int| 0 <= d < c ==> (#[trigger] self.child(node as int, d)).0 != seg@,
            decreases children@.len() - c,
        {
            if children[c].0.same_as(seg) {
                proof {
                    assert(self.child(node as int, c as int) == (children@[c as int].0@, children@[c as int].1 as int));
                }
                return Some(children[c].1);
            }
            proof {
                assert(self.child(node as int, c as int).0 == children@[c as int].0@);
            }
            c = c + 1;
        }
        proof {
            if tree_has(paths, target) {
                let k = tree_index(paths, target);
                assert(paths[k].drop_last() =~= paths[node as int]);
                if k == 0 {
                    assert(paths[0].len() == 0);
                }
                assert(self.is_child_of(k, node as int));
                let d = choose|d: int| 0 <= d < self.nodes@[node as int].children@.len() && #[trigger] self.child(node as int, d).1 == k;
                assert(paths[k] == paths[node as int].push(self.child(node as int, d).0));
                assert(paths[k].last() == self.child(node as int, d).0);
            }
        }
        None
    }

    /// The node reached from `node` by `seg`, created without routes if it
    /// does not exist yet.
    fn child_or_insert(&mut self, node: usize, seg: PathSegment) -> (r: usize)
        requires
            old(self).wf(),
            node < old(self).node_paths@.len(),
        ensures
            final(self).wf(),
            r < final(self).node_paths@.len(),
            final(self).node_paths@[r as int] == old(self).node_paths@[node as int].push(seg@),
            final(self).order() == (if old(self).order().contains(old(self).node_paths@[node as int].push(seg@)) {
                old(self).order()
            } else {
                old(self).order().push(old(self).node_paths@[node as int].push(seg@))
            }),
            final(self).routes() == ensure_node_t(old(self).routes(), old(self).node_paths@[node as int].push(seg@)),
    {
        let ghost target = self.node_paths@[node as int].push(seg@);
        match self.find_child(node, &seg) {
            Some(c) => {
                proof {
                    self.lemma_index(c as int);
                    assert(self.order().contains(target));
                }
                c
            },
            None => {
                let ghost old_routes = self.routes();
                let ghost seg_view = seg@;
                let idx = self.nodes.len();
                proof {
                    assert(!self.order().contains(target));
                }
                self.nodes.push(PathNode::new());
                self.nodes[node].children.push((seg, idx));
                self.node_paths = Ghost(self.node_paths@.push(target));
                proof {
                    let n0 = old(self).node_paths@.len();
                    let paths = self.node_paths@;
                    let nc = old(self).nodes@[node as int].children@.len() as int;
                    assert(self.child(node as int, nc) == (seg_view, idx as int));
                    assert forall|i: int, c: int| 0 <= i < n0 && 0 <= c < old(self).nodes@[i].children@.len()
                        implies #[trigger] self.child(i, c) == old(self).child(i, c) by {
                    }
                    assert forall|i: int, c: int| 0 <= i < paths.len() && 0 <= c < self.nodes@[i].children@.len() implies {
                        &&& i < (#[trigger] self.child(i, c)).1 < paths.len()
                        &&& paths[self.child(i, c).1] == paths[i].push(self.child(i, c).0)
                    } by {
                        if i < n0 && c < old(self).nodes@[i].children@.len() {
                            assert(self.child(i, c) == old(self).child(i, c));
                        }
                    }
                    assert forall|i: int, c1: int, c2: int|
                        0 <= i < paths.len() && 0 <= c1 < c2 < self.nodes@[i].children@.len()
                            implies (#[trigger] self.child(i, c1)).1 < (#[trigger] self.child(i, c2)).1 by {
                        assert(self.child(i, c1) == old(self).child(i, c1));
                        if c2 < old(self).nodes@[i].children@.len() {
                            assert(self.child(i, c2) == old(self).child(i, c2));
                        }
                    }
                    assert forall|i: int, j: int| 0 <= i < paths.len() && 0 < j < paths.len()
                        && paths[j].len() == paths[i].len() + 1 && (#[trigger] paths[j]).drop_last() == #[trigger] paths[i]
                            implies self.is_child_of(j, i) by {
                        if j < n0 && i < n0 {
                            assert(old(self).is_child_of(j, i));
                            let d = choose|d: int| 0 <= d < old(self).nodes@[i].children@.len() && #[trigger] old(self).child(i, d).1 == j;
                            assert(self.child(i, d) == old(self).child(i, d));
                        } else if j == n0 {
                            assert(paths[j].drop_last() =~= paths[node as int]);
                            assert(i == node);
                            assert(self.child(node as int, nc).1 == j);
                        } else {
                            assert(i == n0);
                            assert(paths[i].len() == paths[node as int].len() + 1);
                            assert(old(self).node_paths@.contains(paths[j].drop_last()));
                        }
                    }
                    assert forall|j: int| 0 < j < paths.len() implies (#[trigger] paths[j]).len() > 0 && tree_has(paths, paths[j].drop_last()) by {
                        if j < n0 {
                            let k = tree_index(old(self).node_paths@, paths[j].drop_last());
                            assert(paths[k] == paths[j].drop_last());
                        } else {
                            assert(paths[j].drop_last() =~= paths[node as int]);
                        }
                    }
                    assert forall|i: int| 0 <= i < paths.len() implies (#[trigger] self.nodes@[i]).methods.wf() by {
                        if i < n0 {
                            assert(self.nodes@[i].methods == old(self).nodes@[i].methods);
                        }
                    }
                    assert(self.wf());
                    self.lemma_index(idx as int);
                    assert(methods_view(self.nodes@[idx as int].methods) =~= Map::<Seq<char>, Seq<ExecView>>::empty());
                    assert forall|q: Seq<PatSeg>| #[trigger] old_routes.dom().contains(q)
                        implies self.routes().dom().contains(q) && self.routes()[q] == old_routes[q] by {
                        let i = tree_index(old(self).node_paths@, q);
                        old(self).lemma_index(i);
                        self.lemma_index(i);
                        assert(self.nodes@[i].methods == old(self).nodes@[i].methods);
                    }
                    assert forall|q: Seq<PatSeg>| #[trigger] self.routes().dom().contains(q)
                        implies old_routes.dom().contains(q) || q == target by {
                        let i = tree_index(paths, q);
                        if i < n0 {
                            old(self).lemma_index(i);
                        }
                    }
                    assert(self.routes() =~= ensure_node_t(old_routes, target));
                }
                idx
            },
        }
    }

    /// Sets the executables of `method` at `node`.
    fn insert_method(&mut self, node: usize, method: String, executables: Arc<Vec<Executable>>)
        requires
            old(self).wf(),
            node < old(self).node_paths@.len(),
        ensures
            final(self).wf(),
            final(self).order() == old(self).order(),
            final(self).routes() == old(self).routes().insert(
                old(self).node_paths@[node as int],
                old(self).routes()[old(self).node_paths@[node as int]].insert(method@, exec_views(executables@)),
            ),
    {
        let ghost old_routes = self.routes();
        let ghost p = self.node_paths@[node as int];
        let ghost mname = method@;
        let ghost ev = exec_views(executables@);
        proof {
            self.lemma_index(node as int);
            crate::collections::lemma_insert_distinct(self.nodes@[node as int].methods.entries(), method@, executables);
        }
        self.nodes[node].methods.insert(method, executables);
        proof {
            let n0 = self.node_paths@.len();
            assert forall|i: int, c: int| 0 <= i < n0 && 0 <= c < self.nodes@[i].children@.len()
                implies #[trigger] self.child(i, c) == old(self).child(i, c) by {
            }
            assert forall|i: int, j: int| 0 <= i < n0 && 0 < j < n0 && self.node_paths@[j].len() == self.node_paths@[i].len() + 1
                && (#[trigger] self.node_paths@[j]).drop_last() == #[trigger] self.node_paths@[i]
                    implies self.is_child_of(j, i) by {
                assert(old(self).is_child_of(j, i));
                let d = choose|d: int| 0 <= d < old(self).nodes@[i].children@.len() && #[trigger] old(self).child(i, d).1 == j;
                assert(self.child(i, d) == old(self).child(i, d));
            }
            assert forall|i: int| 0 <= i < n0 implies (#[trigger] self.nodes@[i]).methods.wf() by {
                if i != node {
                    assert(self.nodes@[i].methods == old(self).nodes@[i].methods);
                }
            }
            assert(self.wf());
            self.lemma_index(node as int);
            assert(methods_view(self.nodes@[node as int].methods) =~= old_routes[p].insert(mname, ev));
            assert forall|q: Seq<PatSeg>| #[trigger] old_routes.dom().contains(q) && q != p
                implies self.routes()[q] == old_routes[q] by {
                let i = tree_index(old(self).node_paths@, q);
                old(self).lemma_index(i);
                self.lemma_index(i);
                assert(self.nodes@[i].methods == old(self).nodes@[i].methods);
            }
            assert(self.routes() =~= old_routes.insert(p, old_routes[p].insert(mname, ev)));
        }
    }

    /// Adds every configured path to the tree, with the executables of
    /// each of its methods.
    fn parse_paths(&mut self, router_config: &RouterConfig)
        requires
            old(self).wf(),
            router_config.wf(),
        ensures
            final(self).wf(),
            final(self).order() == tree_order_after(old(self).order(), router_config.paths.entries()),
            final(self).routes() == tree_routes_after(old(self).routes(), router_config.paths.entries()),
    {
        let ghost entries = router_config.paths.entries();
        let ghost o0 = self.order();
        let ghost r0 = self.routes();
        let n = router_config.paths.len();
        proof {
            assert(entries.take(0) =~= Seq::<(Seq<char>, PathConfig)>::empty());
        }
        for i in 0..n
            invariant
                self.wf(),
                router_config.wf(),
                entries == router_config.paths.entries(),
                n == entries.len(),
                self.order() == tree_order_after(o0, entries.take(i as int)),
                self.routes() == tree_routes_after(r0, entries.take(i as int)),
        {
            let (path, config) = router_config.paths.entry_at(i);
            let ghost pat = tree_pattern(path@);
            let ghost oi = self.order();
            let ghost ri = self.routes();
            let ghost ms = config.methods.entries();
            proof {
                assert(entries.take(i + 1).drop_last() =~= entries.take(i as int));
                assert(entries.take(i + 1).last() == entries[i as int]);
                assert(config.methods.wf());
                assert(pat.take(0) =~= Seq::<PatSeg>::empty());
                self.lemma_index(0);
            }
            let pieces = split_all_exec(path.as_str());
            let mut current: usize = 0;
            let mut k: usize = 0;
            while k < pieces.len()
                invariant
                    self.wf(),
                    strs_view(pieces@) == split_all(path@),
                    pat == tree_pattern(path@),
                    pat.len() == pieces@.len(),
                    k <= pieces@.len(),
                    current < self.node_paths@.len(),
                    self.node_paths@[current as int] == pat.take(k as int),
                    self.order() == extend_order(oi, pat, k as nat),
                    self.routes() == ensure_prefixes_t(ri, pat, k as nat),
                decreases pieces@.len() - k,
            {
                let seg = PathSegment::from_str(pieces[k]);
                proof {
                    assert(strs_view(pieces@)[k as int] == pieces@[k as int]@);
                    assert(seg@ == pat[k as int]);
                    assert(pat.take(k as int).push(pat[k as int]) =~= pat.take(k + 1));
                }
                current = self.child_or_insert(current, seg);
                k = k + 1;
            }
            proof {
                assert(pat.take(pat.len() as int) =~= pat);
                self.lemma_index(current as int);
                assert(ms.take(0) =~= Seq::<(Seq<char>, Vec<Executable>)>::empty());
            }
            let ghost ensured = self.routes();
            let m = config.methods.len();
            for j in 0..m
                invariant
                    self.wf(),
                    config.methods.wf(),
                    ms == config.methods.entries(),
                    m == ms.len(),
                    current < self.node_paths@.len(),
                    self.node_paths@[current as int] == pat,
                    self.order() == extend_order(oi, pat, pat.len()),
                    self.routes() == add_methods_t(ensured, pat, ms.take(j as int)),
            {
                let (method, handlers) = config.methods.entry_at(j);
                let executables = Arc::new(clone_executables(handlers));
                proof {
                    assert(ms.take(j + 1).drop_last() =~= ms.take(j as int));
                    assert(ms.take(j + 1).last() == ms[j as int]);
                    assert(ms[j as int].0 == method@);
                }
                self.insert_method(current, method.clone(), executables);
            }
            proof {
                assert(ms.take(m as int) =~= ms);
            }
        }
        proof {
            assert(entries.take(n as int) =~= entries);
        }
    }

    /// A router holding the configured paths.
    pub fn new(config: &RouterConfig) -> (r: Self)
        requires
            config.wf(),
        ensures
            r.wf(),
            r.order() == tree_order_after(seq![Seq::<PatSeg>::empty()], config.paths.entries()),
            r.routes() == tree_routes_after(root_routes(), config.paths.entries()),
    {
        let mut router = Router::root_only();
        router.parse_paths(config);
        router
    }

    /// The first child of `node` whose segment matches `piece`.
    fn find_matching_child(&self, node: usize, piece: &str) -> (r: Option<usize>)
        requires
            self.wf(),
            node < self.node_paths@.len(),
        ensures
            match r {
                Some(c) => first_child_from(self.order(), self.order()[node as int], piece@, 0) == Some(c as int)
                    && c < self.order().len(),
                None => first_child_from(self.order(), self.order()[node as int], piece@, 0) is None,
            },
    {
        let ghost paths = self.node_paths@;
        let ghost p = paths[node as int];
        let children = &self.nodes[node].children;
        let mut c: usize = 0;
        while c < children.len()
            invariant
                self.wf(),
                node < paths.len(),
                paths == self.node_paths@,
                p == paths[node as int],
                children == self.nodes@[node as int].children,
                c <= children@.len(),
                forall|d: int| 0 <= d < c ==> !seg_matches(#[trigger] self.child(node as int, d).0, piece@),
            decreases children@.len() - c,
        {
            if segment_matches(&children[c].0, piece) {
                let j = children[c].1;
                proof {
                    let jj = j as int;
                    assert(self.child(node as int, c as int) == (children@[c as int].0@, jj));
                    assert(paths[jj] == p.push(children@[c as int].0@));
                    assert(paths[jj].drop_last() =~= p);
                    assert forall|k: int| 0 <= k < jj implies !(paths[k].len() == p.len() + 1 && paths[k].drop_last() == p
                        && seg_matches(#[trigger] paths[k].last(), piece@)) by {
                        if paths[k].len() == p.len() + 1 && paths[k].drop_last() == p && seg_matches(paths[k].last(), piece@) {
                            if k == 0 {
                                assert(paths[0].len() == 0);
                            }
                            assert(self.is_child_of(k, node as int));
                            let d = choose|d: int| 0 <= d < self.nodes@[node as int].children@.len() && #[trigger] self.child(node as int, d).1 == k;
                            if d >= c {
                                if d > c {
                                    assert(self.child(node as int, c as int).1 < self.child(node as int, d).1);
                                }
                            }
                            assert(d < c);
                            assert(paths[k] == p.push(self.child(node as int, d).0));
                            assert(paths[k].last() == self.child(node as int, d).0);
                        }
                    }
                    lemma_first_child_at(paths, p, piece@, 0, jj);
                }
                return Some(j);
            }
            proof {
                assert(self.child(node as int, c as int).0 == children@[c as int].0@);
            }
            c = c + 1;
        }
        proof {
            assert forall|k: int| 0 <= k < paths.len() implies !(paths[k].len() == p.len() + 1 && paths[k].drop_last() == p
                && seg_matches(#[trigger] paths[k].last(), piece@)) by {
                if paths[k].len() == p.len() + 1 && paths[k].drop_last() == p && seg_matches(paths[k].last(), piece@) {
                    if k == 0 {
                        assert(paths[0].len() == 0);
                    }
                    assert(self.is_child_of(k, node as int));
                    let d = choose|d: int| 0 <= d < self.nodes@[node as int].children@.len() && #[trigger] self.child(node as int, d).1 == k;
                    assert(paths[k] == p.push(self.child(node as int, d).0));
                    assert(paths[k].last() == self.child(node as int, d).0);
                }
            }
            lemma_first_child_none(paths, p, piece@, 0);
        }
        None
    }

    /// The executables for `path` and `method`: the walk goes piece by
    /// piece, `path` split at every `/`, to the first child that matches.
    pub fn get_handlers_from_path_and_method(&self, path: &str, method: &str) -> (r: Option<Arc<Vec<Executable>>>)
        requires
            self.wf(),
        ensures
            match r {
                Some(a) => tree_find(self.routes(), self.order(), Seq::empty(), split_all(path@), 0, method@) == Some(exec_views(a@)),
                None => tree_find(self.routes(), self.order(), Seq::empty(), split_all(path@), 0, method@) is None,
            },
    {
        let segments = split_all_exec(path);
        let ghost segs = split_all(path@);
        let ghost want = tree_find(self.routes(), self.order(), Seq::empty(), segs, 0, method@);
        let mut node: usize = 0;
        let mut i: usize = 0;
        while i < segments.len()
            invariant
                self.wf(),
                strs_view(segments@) == segs,
                i <= segments@.len(),
                node < self.node_paths@.len(),
                want == tree_find(self.routes(), self.order(), self.node_paths@[node as int], segs, i as int, method@),
                want == tree_find(self.routes(), self.order(), Seq::empty(), split_all(path@), 0, method@),
                segs == split_all(path@),
            decreases segments@.len() - i,
        {
            proof {
                assert(segs[i as int] == segments@[i as int]@);
                assert(segs.len() == segments@.len());
            }
            match self.find_matching_child(node, segments[i]) {
                Some(c) => {
                    node = c;
                },
                None => {
                    return None;
                },
            }
            i = i + 1;
        }
        proof {
            self.lemma_index(node as int);
        }
        match self.nodes[node].methods.get(method) {
            Some(a) => Some(crate::ext::arc_share(a)),
            None => None,
        }
    }
}

/// The first `i` pieces of a request, each as a static segment.
pub open spec fn static_prefix(segs: Seq<Seq<char>>, i: int) -> Seq<PatSeg> {
    segs.take(i).map_values(|s: Seq<char>| PatSeg::Static(s))
}

impl Router {
    /// Every prefix of a node's pattern is a node's pattern.
    proof fn lemma_prefix_closed(&self, q: Seq<PatSeg>, k: int)
        requires
            self.wf(),
            tree_has(self.node_paths@, q),
            0 <= k <= q.len(),
        ensures
            tree_has(self.node_paths@, q.take(k)),
        decreases q.len() - k,
    {
        if k == q.len() {
            assert(q.take(k) =~= q);
        } else {
            let j = tree_index(self.node_paths@, q);
            assert(j != 0) by {
                assert(q.len() > 0);
            }
            let parent = q.drop_last();
            self.lemma_prefix_closed(parent, k);
            assert(parent.take(k) =~= q.take(k));
        }
    }

    proof fn lemma_walk_static(&self, segs: Seq<Seq<char>>, i: int, m: Seq<char>)
        requires
            self.wf(),
            forall|j: int| 0 <= j < self.node_paths@.len() ==> forall|t: int| 0 <= t < (#[trigger] self.node_paths@[j]).len()
                ==> self.node_paths@[j][t] is Static,
            0 <= i <= segs.len(),
            tree_has(self.node_paths@, static_prefix(segs, i)),
        ensures
            tree_find(self.routes(), self.order(), static_prefix(segs, i), segs, i, m)
                == route_at(self.routes(), static_prefix(segs, segs.len() as int), m),
        decreases segs.len() - i,
    {
        let order = self.node_paths@;
        let p = static_prefix(segs, i);
        if i == segs.len() {
        } else {
            let target = static_prefix(segs, i + 1);
            assert(target =~= p.push(PatSeg::Static(segs[i])));
            assert(target.drop_last() =~= p);
            if tree_has(order, target) {
                let idx = tree_index(order, target);
                assert forall|k: int| 0 <= k < idx implies !(order[k].len() == p.len() + 1 && order[k].drop_last() == p
                    && seg_matches(#[trigger] order[k].last(), segs[i])) by {
                    if order[k].len() == p.len() + 1 && order[k].drop_last() == p && seg_matches(order[k].last(), segs[i]) {
                        assert(order[k].last() == order[k][order[k].len() - 1]);
                        assert(order[k].last() is Static);
                        assert(order[k] =~= p.push(order[k].last()));
                        assert(order[k] =~= target);
                    }
                }
                lemma_first_child_at(order, p, segs[i], 0, idx);
                self.lemma_walk_static(segs, i + 1, m);
            } else {
                assert forall|k: int| 0 <= k < order.len() implies !(order[k].len() == p.len() + 1 && order[k].drop_last() == p
                    && seg_matches(#[trigger] order[k].last(), segs[i])) by {
                    if order[k].len() == p.len() + 1 && order[k].drop_last() == p && seg_matches(order[k].last(), segs[i]) {
                        assert(order[k].last() == order[k][order[k].len() - 1]);
                        assert(order[k].last() is Static);
                        assert(order[k] =~= p.push(order[k].last()));
                        assert(order[k] =~= target);
                    }
                }
                lemma_first_child_none(order, p, segs[i], 0);
                let full = static_prefix(segs, segs.len() as int);
                if tree_has(order, full) {
                    self.lemma_prefix_closed(full, i + 1);
                    assert(full.take(i + 1) =~= target);
                }
            }
        }
    }
}

/// In a tree whose nodes are all static, a request finds exactly the route
/// of its path: the node whose segments are the pieces of the path.
pub proof fn lemma_static_tree_finds_exact_path(router: Router, path: Seq<char>, method: Seq<char>)
    requires
        router.wf(),
        forall|j: int| 0 <= j < router.order().len() ==> forall|t: int| 0 <= t < (#[trigger] router.order()[j]).len()
            ==> router.order()[j][t] is Static,
    ensures
        tree_find(router.routes(), router.order(), Seq::empty(), split_all(path), 0, method)
            == route_at(router.routes(), static_prefix(split_all(path), split_all(path).len() as int), method),
{
    let segs = split_all(path);
    assert(static_prefix(segs, 0) =~= Seq::<PatSeg>::empty());
    router.lemma_index(0);
    router.lemma_walk_static(segs, 0, method);
}

} // verus!
