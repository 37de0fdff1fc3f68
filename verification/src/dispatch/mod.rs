//! Table-driven dispatch: configured paths and methods name lists of
//! executables (single handlers, or named chains of handlers), which a
//! route table finds again for a request.
pub mod default_router;
pub mod exchange;
pub mod executor;
pub mod route_table;
pub mod run;
pub mod status;
pub mod tree;

use vstd::prelude::*;
use crate::collections::StrMap;

verus! {

broadcast use vstd::string::group_string_axioms;

/// A path pattern segment, by view: static text, or a wildcard carrying
/// the text it was written with.
pub ghost enum PatSeg {
    Static(Seq<char>),
    Any(Seq<char>),
}

/// The pattern segment that the text `s` stands for: `*` is the wildcard.
pub open spec fn pat_seg_of(s: Seq<char>) -> PatSeg {
    if s == "*"@ {
        PatSeg::Any(s)
    } else {
        PatSeg::Static(s)
    }
}

/// A segment of a configured path pattern.
#[derive(Debug, PartialEq, Eq, Hash)]
pub enum PathSegment {
    Static(String),
    Any(String),
}

impl View for PathSegment {
    type V = PatSeg;

    open spec fn view(&self) -> PatSeg {
        match self {
            PathSegment::Static(s) => PatSeg::Static(s@),
            PathSegment::Any(s) => PatSeg::Any(s@),
        }
    }
}

/// The views of a sequence of pattern segments.
pub open spec fn pat_views(v: Seq<PathSegment>) -> Seq<PatSeg> {
    v.map_values(|s: PathSegment| s@)
}

impl PathSegment {
    /// Parses a segment: `*` is the wildcard, anything else is static.
    pub fn from_str(s: &str) -> (r: Self)
        ensures
            r@ == pat_seg_of(s@),
    {
        let owned = s.to_owned();
        if owned == "*".to_owned() {
            PathSegment::Any(owned)
        } else {
            PathSegment::Static(owned)
        }
    }

    /// A copy of this segment.
    pub fn duplicate(&self) -> (r: Self)
        ensures
            r@ == self@,
    {
        match self {
            PathSegment::Static(s) => PathSegment::Static(s.clone()),
            PathSegment::Any(s) => PathSegment::Any(s.clone()),
        }
    }

    /// Whether two segments are the same.
    pub fn same_as(&self, other: &PathSegment) -> (b: bool)
        ensures
            b == (self@ == other@),
    {
        match (self, other) {
            (PathSegment::Static(a), PathSegment::Static(b)) => *a == *b,
            (PathSegment::Any(a), PathSegment::Any(b)) => *a == *b,
            _ => false,
        }
    }
}

impl Clone for PathSegment {
    fn clone(&self) -> (r: Self)
        ensures
            r@ == self@,
    {
        self.duplicate()
    }
}

/// Names a chain of handlers.
#[derive(Debug, PartialEq, Eq, Hash)]
pub struct ChainId(pub String);

/// Names a handler.
#[derive(Debug, PartialEq, Eq, Hash)]
pub struct HandlerId(pub String);

impl View for ChainId {
    type V = Seq<char>;

    open spec fn view(&self) -> Seq<char> {
        self.0@
    }
}

impl View for HandlerId {
    type V = Seq<char>;

    open spec fn view(&self) -> Seq<char> {
        self.0@
    }
}

impl Clone for ChainId {
    fn clone(&self) -> (r: Self)
        ensures
            r@ == self@,
    {
        ChainId(self.0.clone())
    }
}

impl Clone for HandlerId {
    fn clone(&self) -> (r: Self)
        ensures
            r@ == self@,
    {
        HandlerId(self.0.clone())
    }
}

impl ChainId {
    /// The text displayed for a chain: `ChainId(<name>)`.
    pub fn to_text(&self) -> (r: String)
        ensures
            r@ == "ChainId("@ + self@ + ")"@,
    {
        let mut r = "ChainId(".to_owned();
        r.push_str(self.0.as_str());
        r.push_str(")");
        r
    }
}

impl HandlerId {
    /// The text that is displayed for a handler: `HandlerId(<name>)`.
    pub fn to_text(&self) -> (r: String)
        ensures
            r@ == "HandlerId("@ + self@ + ")"@,
    {
        let mut r = "HandlerId(".to_owned();
        r.push_str(self.0.as_str());
        r.push_str(")");
        r
    }
}

/// An executable, by view.
pub ghost enum ExecView {
    Handler(Seq<char>),
    Chain(Seq<char>),
}

/// Something a route runs: one handler, or a named chain of handlers.
#[derive(PartialEq, Debug)]
pub enum Executable {
    Handler(HandlerId),
    Chain(ChainId),
}

impl View for Executable {
    type V = ExecView;

    open spec fn view(&self) -> ExecView {
        match self {
            Executable::Handler(h) => ExecView::Handler(h@),
            Executable::Chain(c) => ExecView::Chain(c@),
        }
    }
}

impl Clone for Executable {
    fn clone(&self) -> (r: Self)
        ensures
            r@ == self@,
    {
        match self {
            Executable::Handler(h) => Executable::Handler(h.clone()),
            Executable::Chain(c) => Executable::Chain(c.clone()),
        }
    }
}

/// The views of a sequence of executables.
pub open spec fn exec_views(v: Seq<Executable>) -> Seq<ExecView> {
    v.map_values(|e: Executable| e@)
}

/// The executable that the text `s` names: a chain when it starts with
/// `@`, a handler otherwise. The name keeps the `@`.
pub open spec fn exec_of(s: Seq<char>) -> ExecView {
    if s.len() > 0 && s[0] == '@' {
        ExecView::Chain(s)
    } else {
        ExecView::Handler(s)
    }
}

impl Executable {
    /// Parses an executable name.
    pub fn from_str(s: &str) -> (r: Self)
        ensures
            r@ == exec_of(s@),
    {
        let n = s.unicode_len();
        if n > 0 && s.get_char(0) == '@' {
            Executable::Chain(ChainId(s.to_owned()))
        } else {
            Executable::Handler(HandlerId(s.to_owned()))
        }
    }

    /// The text displayed for the executable: `Handler(HandlerId(<name>))`
    /// or `Chain(ChainId(<name>))`.
    pub fn to_text(&self) -> (r: String)
        ensures
            r@ == (match self@ {
                ExecView::Handler(h) => "Handler(HandlerId("@ + h + "))"@,
                ExecView::Chain(c) => "Chain(ChainId("@ + c + "))"@,
            }),
    {
        match self {
            Executable::Handler(h) => {
                let mut r = "Handler(".to_owned();
                let t = h.to_text();
                r.push_str(t.as_str());
                r.push_str(")");
                proof {
                    assert(r@ =~= "Handler(HandlerId("@ + h@ + "))"@) by {
                        reveal_strlit("Handler(");
                        reveal_strlit("HandlerId(");
                        reveal_strlit("Handler(HandlerId(");
                        reveal_strlit(")");
                        reveal_strlit("))");
                    }
                }
                r
            },
            Executable::Chain(c) => {
                let mut r = "Chain(".to_owned();
                let t = c.to_text();
                r.push_str(t.as_str());
                r.push_str(")");
                proof {
                    assert(r@ =~= "Chain(ChainId("@ + c@ + "))"@) by {
                        reveal_strlit("Chain(");
                        reveal_strlit("ChainId(");
                        reveal_strlit("Chain(ChainId(");
                        reveal_strlit(")");
                        reveal_strlit("))");
                    }
                }
                r
            },
        }
    }
}

/// The executables configured for each method of one path.
pub struct PathConfig {
    pub methods: StrMap<Vec<Executable>>,
}

/// Named chains and configured paths.
pub struct RouterConfig {
    /// The handlers of each chain, by chain name.
    pub chains: StrMap<Vec<HandlerId>>,
    /// The configuration of each path.
    pub paths: StrMap<PathConfig>,
}

impl RouterConfig {
    /// No key is repeated in any of the tables.
    pub open spec fn wf(&self) -> bool {
        &&& self.chains.wf()
        &&& self.paths.wf()
        &&& forall|i: int| 0 <= i < self.paths.entries().len() ==> (#[trigger] self.paths.entries()[i]).1.methods.wf()
    }
}

/// The method and path of a request.
#[derive(Debug)]
pub struct RouteInfo {
    pub path: String,
    pub method: String,
}

impl Clone for RouteInfo {
    fn clone(&self) -> (r: Self)
        ensures
            r.path@ == self.path@,
            r.method@ == self.method@,
    {
        RouteInfo { path: self.path.clone(), method: self.method.clone() }
    }
}

impl RouteInfo {
    pub fn new(path: String, method: String) -> (r: Self)
        ensures
            r.path == path,
            r.method == method,
    {
        Self { path, method }
    }

    /// The text displayed for the route: `RouteInfo { path: <path>, method: <method> }`.
    pub fn to_text(&self) -> (r: String)
        ensures
            r@ == "RouteInfo { path: "@ + self.path@ + ", method: "@ + self.method@ + " }"@,
    {
        let mut r = "RouteInfo { path: ".to_owned();
        r.push_str(self.path.as_str());
        r.push_str(", method: ");
        r.push_str(self.method.as_str());
        r.push_str(" }");
        r
    }
}

/// The position after `position` in a sequence of `len` items.
pub(crate) fn next_index(position: usize, len: usize) -> (r: usize)
    requires
        position < len,
    ensures
        r == position + 1,
{
    position + 1
}

/// Why a request could not be routed.
#[derive(Debug)]
pub enum RouterError {
    RouteNotFound,
    MethodNotSupported,
    HandlerNotFound(HandlerId),
    ChainNotFound(ChainId),
    ExecutionFailed(String),
    ExchangeCreationFailed(String),
}

} // verus!
