//! Running the executables of a route: handlers one after another, the
//! handlers of a named chain in its place. The router decides, from each
//! handler's report, which handler runs next or how the run ends; the
//! caller runs the handlers.
use vstd::prelude::*;
use crate::collections::StrMap;
use crate::dispatch::{ChainId, ExecView, Executable, HandlerId, exec_views, next_index};
use crate::dispatch::default_router::DefaultRouter;

verus! {

/// The names of a list of handler ids.
pub open spec fn ids_view(v: Seq<HandlerId>) -> Seq<Seq<char>> {
    v.map_values(|h: HandlerId| h@)
}

/// The handlers of the chain named `c`, if it exists.
pub open spec fn chain_of(chains: StrMap<Vec<HandlerId>>, c: Seq<char>) -> Option<Seq<Seq<char>>> {
    match chains.get_spec(c) {
        Some(v) => Some(ids_view(v@)),
        None => None,
    }
}

/// A run, by view: the executables, the position of the current one, and
/// within a chain, the chain's name, handlers and position.
pub ghost struct RunView {
    pub execs: Seq<ExecView>,
    pub pos: nat,
    pub chain: Option<(Seq<char>, Seq<Seq<char>>, nat)>,
}

/// Why a run failed, by view.
pub ghost enum FailView {
    HandlerNotFound(Seq<char>),
    ChainNotFound(Seq<char>),
    ExecutionFailed(Seq<char>),
    ErrorStatus(Seq<char>, Option<Seq<char>>),
}

/// What the caller does next, by view.
pub ghost enum StepView {
    Execute(Seq<char>),
    Succeeded,
    Failed(FailView),
}

/// A handler's report, by view.
pub ghost enum ReportView {
    Status { completed: bool, error: bool },
    Failed(Seq<char>),
}

/// From position `pos` (and, inside a chain, its position), the next
/// handler to run, or how the run ends: a handler that is not registered
/// or a chain that does not exist fails the run; the end of the list
/// succeeds; the end of a chain goes on with the next executable.
pub open spec fn next_step<H>(
    handlers: StrMap<H>,
    chains: StrMap<Vec<HandlerId>>,
    execs: Seq<ExecView>,
    pos: nat,
    chain: Option<(Seq<char>, Seq<Seq<char>>, nat)>,
) -> (RunView, StepView)
    decreases execs.len() - pos, (if chain is None { 1int } else { 0int }), (match chain {
        Some(c) => c.1.len() - c.2,
        None => 0,
    }),
{
    let here = RunView { execs, pos, chain };
    match chain {
        Some((c, hs, cp)) => {
            if cp < hs.len() {
                if handlers.contains_spec(hs[cp as int]) {
                    (here, StepView::Execute(hs[cp as int]))
                } else {
                    (here, StepView::Failed(FailView::HandlerNotFound(hs[cp as int])))
                }
            } else if pos < execs.len() {
                next_step(handlers, chains, execs, pos + 1, None)
            } else {
                (here, StepView::Succeeded)
            }
        },
        None => {
            if pos < execs.len() {
                match execs[pos as int] {
                    ExecView::Handler(h) => {
                        if handlers.contains_spec(h) {
                            (here, StepView::Execute(h))
                        } else {
                            (here, StepView::Failed(FailView::HandlerNotFound(h)))
                        }
                    },
                    ExecView::Chain(c) => {
                        match chain_of(chains, c) {
                            Some(hs) => next_step(handlers, chains, execs, pos, Some((c, hs, 0))),
                            None => (here, StepView::Failed(FailView::ChainNotFound(c))),
                        }
                    },
                }
            } else {
                (here, StepView::Succeeded)
            }
        },
    }
}

/// Whether the run waits for the report of a handler.
pub open spec fn awaiting(rv: RunView) -> bool {
    match rv.chain {
        Some((c, hs, cp)) => cp < hs.len() && rv.pos < rv.execs.len(),
        None => rv.pos < rv.execs.len() && rv.execs[rv.pos as int] is Handler,
    }
}

/// The handler that the run waits for.
pub open spec fn current_handler(rv: RunView) -> Seq<char> {
    match rv.chain {
        Some((c, hs, cp)) => hs[cp as int],
        None => rv.execs[rv.pos as int]->Handler_0,
    }
}

/// What follows the report of the current handler: a failed execution
/// fails the run; a handler that completes the request ends the run, or,
/// inside a chain, ends the chain; an error status fails the run;
/// otherwise the next handler follows.
pub open spec fn after_report<H>(
    handlers: StrMap<H>,
    chains: StrMap<Vec<HandlerId>>,
    rv: RunView,
    report: ReportView,
) -> (RunView, StepView) {
    match report {
        ReportView::Failed(msg) => (rv, StepView::Failed(FailView::ExecutionFailed(msg))),
        ReportView::Status { completed, error } => {
            if completed {
                match rv.chain {
                    Some(_) => next_step(handlers, chains, rv.execs, rv.pos + 1, None),
                    None => (rv, StepView::Succeeded),
                }
            } else if error {
                let chain_name = match rv.chain {
                    Some((c, hs, cp)) => Some(c),
                    None => None,
                };
                (rv, StepView::Failed(FailView::ErrorStatus(current_handler(rv), chain_name)))
            } else {
                match rv.chain {
                    Some((c, hs, cp)) => next_step(handlers, chains, rv.execs, rv.pos, Some((c, hs, cp + 1))),
                    None => next_step(handlers, chains, rv.execs, rv.pos + 1, None),
                }
            }
        },
    }
}

/// Where a run of executables stands.
pub struct ExecutableRun {
    executables: Vec<Executable>,
    position: usize,
    chain: Option<(ChainId, Vec<HandlerId>, usize)>,
}

impl View for ExecutableRun {
    type V = RunView;

    closed spec fn view(&self) -> RunView {
        RunView {
            execs: exec_views(self.executables@),
            pos: self.position as nat,
            chain: match self.chain {
                Some((c, hs, cp)) => Some((c@, ids_view(hs@), cp as nat)),
                None => None,
            },
        }
    }
}

impl ExecutableRun {
    /// Whether the run waits for the report of a handler.
    pub fn is_awaiting(&self) -> (b: bool)
        ensures
            b == awaiting(self@),
    {
        match &self.chain {
            Some((_, hs, cp)) => *cp < hs.len() && self.position < self.executables.len(),
            None => {
                if self.position < self.executables.len() {
                    match &self.executables[self.position] {
                        Executable::Handler(_) => true,
                        Executable::Chain(_) => false,
                    }
                } else {
                    false
                }
            },
        }
    }
}

/// Why a run failed.
#[derive(Debug)]
pub enum RunFailure {
    HandlerNotFound(HandlerId),
    ChainNotFound(ChainId),
    ExecutionFailed(String),
    /// The handler reported an error status, inside the chain if any.
    ErrorStatus(HandlerId, Option<ChainId>),
}

impl View for RunFailure {
    type V = FailView;

    open spec fn view(&self) -> FailView {
        match self {
            RunFailure::HandlerNotFound(h) => FailView::HandlerNotFound(h@),
            RunFailure::ChainNotFound(c) => FailView::ChainNotFound(c@),
            RunFailure::ExecutionFailed(m) => FailView::ExecutionFailed(m@),
            RunFailure::ErrorStatus(h, c) => FailView::ErrorStatus(h@, match c {
                Some(c) => Some(c@),
                None => None,
            }),
        }
    }
}

/// What the caller does next.
#[derive(Debug)]
pub enum RunStep {
    /// Run this handler on the exchange and report how it went.
    Execute(HandlerId),
    /// The run is over.
    Finished(Result<(), RunFailure>),
}

impl View for RunStep {
    type V = StepView;

    open spec fn view(&self) -> StepView {
        match self {
            RunStep::Execute(h) => StepView::Execute(h@),
            RunStep::Finished(Ok(())) => StepView::Succeeded,
            RunStep::Finished(Err(e)) => StepView::Failed(e@),
        }
    }
}

/// How a handler went.
#[derive(Debug)]
pub enum HandlerReport {
    /// It returned a status: whether that status completes the request,
    /// and whether it is an error.
    Status { completed: bool, error: bool },
    /// It failed with this message.
    Failed(String),
}

impl View for HandlerReport {
    type V = ReportView;

    open spec fn view(&self) -> ReportView {
        match self {
            HandlerReport::Status { completed, error } => ReportView::Status { completed: *completed, error: *error },
            HandlerReport::Failed(m) => ReportView::Failed(m@),
        }
    }
}

/// A copy of a list of handler ids.
fn clone_ids(v: &Vec<HandlerId>) -> (r: Vec<HandlerId>)
    ensures
        ids_view(r@) == ids_view(v@),
{
    let mut r: Vec<HandlerId> = Vec::new();
    let mut i: usize = 0;
    while i < v.len()
        invariant
            i <= v@.len(),
            ids_view(r@) == ids_view(v@.take(i as int)),
        decreases v@.len() - i,
    {
        let ghost prev = r@;
        let c = v[i].clone();
        let ghost cv = c@;
        r.push(c);
        proof {
            assert(v@.take(i + 1) =~= v@.take(i as int).push(v@[i as int]));
            assert(ids_view(r@) =~= ids_view(prev).push(cv));
            assert(ids_view(v@.take(i + 1)) =~= ids_view(v@.take(i as int)).push(v@[i as int]@));
        }
        i = i + 1;
    }
    proof {
        assert(v@.take(v@.len() as int) =~= v@);
    }
    r
}

impl<H, F> DefaultRouter<H, F> {
    /// Moves `run` to the next handler to run from where it stands, or to
    /// the end of the run.
    fn advance(&self, run: &mut ExecutableRun) -> (step: RunStep)
        requires
            self.wf(),
            old(run)@.pos <= old(run)@.execs.len(),
            old(run)@.chain is Some ==> old(run)@.pos < old(run)@.execs.len(),
        ensures
            (final(run)@, step@) == next_step(self.handlers_spec(), self.chains_spec(), old(run)@.execs, old(run)@.pos, old(run)@.chain),
    {
        loop
            invariant
                self.wf(),
                next_step(self.handlers_spec(), self.chains_spec(), run@.execs, run@.pos, run@.chain)
                    == next_step(self.handlers_spec(), self.chains_spec(), old(run)@.execs, old(run)@.pos, old(run)@.chain),
                run.position <= run.executables@.len(),
                run.chain is Some ==> run.position < run.executables@.len(),
            decreases run.executables@.len() - run.position,
                (if run.chain is None { 1int } else { 0int }),
                (match run.chain {
                    Some(c) => c.1@.len() - c.2,
                    None => 0,
                }),
        {
            let ghost rv = run@;
            let in_chain = run.chain.is_some();
            if in_chain {
                let (cp, len, h) = match &run.chain {
                    Some((_, hs, cp)) => {
                        if *cp < hs.len() {
                            (*cp, hs.len(), Some(hs[*cp].clone()))
                        } else {
                            (*cp, hs.len(), None)
                        }
                    },
                    None => (0, 0, None),
                };
                match h {
                    Some(h) => {
                        proof {
                            assert(h@ == (rv.chain->0).1[cp as int]);
                        }
                        if self.handlers().contains_key(h.0.as_str()) {
                            return RunStep::Execute(h);
                        } else {
                            return RunStep::Finished(Err(RunFailure::HandlerNotFound(h)));
                        }
                    },
                    None => {
                        if run.position < run.executables.len() {
                            run.position = run.position + 1;
                            run.chain = None;
                        } else {
                            return RunStep::Finished(Ok(()));
                        }
                    },
                }
            } else {
                if run.position < run.executables.len() {
                    let p = run.position;
                    proof {
                        assert(rv.execs[p as int] == run.executables@[p as int]@);
                    }
                    match &run.executables[p] {
                        Executable::Handler(h) => {
                            let h = h.clone();
                            if self.handlers().contains_key(h.0.as_str()) {
                                return RunStep::Execute(h);
                            } else {
                                return RunStep::Finished(Err(RunFailure::HandlerNotFound(h)));
                            }
                        },
                        Executable::Chain(c) => {
                            let c = c.clone();
                            match self.chains().get(c.0.as_str()) {
                                Some(hs) => {
                                    let hs = clone_ids(hs);
                                    run.chain = Some((c, hs, 0));
                                },
                                None => {
                                    return RunStep::Finished(Err(RunFailure::ChainNotFound(c)));
                                },
                            }
                        },
                    }
                } else {
                    return RunStep::Finished(Ok(()));
                }
            }
        }
    }

    /// Starts a run of `executables`: the first handler to run, or how the
    /// run ends before any handler runs.
    pub fn start_run(&self, executables: &Vec<Executable>) -> (r: (ExecutableRun, RunStep))
        requires
            self.wf(),
        ensures
            (r.0@, r.1@) == next_step(self.handlers_spec(), self.chains_spec(), exec_views(executables@), 0, None),
            r.1 is Execute ==> awaiting(r.0@) && current_handler(r.0@) == r.1->Execute_0@,
    {
        let mut run = ExecutableRun { executables: clone_list(executables), position: 0, chain: None };
        let step = self.advance(&mut run);
        proof {
            lemma_next_step_awaits(self.handlers_spec(), self.chains_spec(), exec_views(executables@), 0, None);
        }
        (run, step)
    }

    /// Continues `run` after the current handler reported `report`.
    pub fn resume_run(&self, run: ExecutableRun, report: HandlerReport) -> (r: (ExecutableRun, RunStep))
        requires
            self.wf(),
            awaiting(run@),
        ensures
            (r.0@, r.1@) == after_report(self.handlers_spec(), self.chains_spec(), run@, report@),
            r.1 is Execute ==> awaiting(r.0@) && current_handler(r.0@) == r.1->Execute_0@,
    {
        let mut run = run;
        let ghost rv = run@;
        proof {
            assert(rv.execs.len() == run.executables@.len());
            if run.chain is Some {
                assert(ids_view((run.chain->0).1@).len() == (run.chain->0).1@.len());
            }
        }
        match report {
            HandlerReport::Failed(msg) => (run, RunStep::Finished(Err(RunFailure::ExecutionFailed(msg)))),
            HandlerReport::Status { completed, error } => {
                if completed {
                    if run.chain.is_some() {
                        run.position = next_index(run.position, run.executables.len());
                        run.chain = None;
                        let step = self.advance(&mut run);
                        proof {
                            lemma_next_step_awaits(self.handlers_spec(), self.chains_spec(), rv.execs, rv.pos + 1, None);
                        }
                        (run, step)
                    } else {
                        (run, RunStep::Finished(Ok(())))
                    }
                } else if error {
                    let (handler, chain) = match &run.chain {
                        Some((c, hs, cp)) => (hs[*cp].clone(), Some(c.clone())),
                        None => {
                            let h = match &run.executables[run.position] {
                                Executable::Handler(h) => h.clone(),
                                Executable::Chain(c) => HandlerId(c.0.clone()),
                            };
                            (h, None)
                        },
                    };
                    proof {
                        assert(rv.chain is None ==> rv.execs[rv.pos as int] == run.executables@[run.position as int]@);
                    }
                    (run, RunStep::Finished(Err(RunFailure::ErrorStatus(handler, chain))))
                } else {
                    let next = match run.chain.take() {
                        Some((c, hs, cp)) => {
                            proof {
                                assert(ids_view(hs@).len() == hs@.len());
                            }
                            let next_cp = next_index(cp, hs.len());
                            Some((c, hs, next_cp))
                        },
                        None => {
                            run.position = next_index(run.position, run.executables.len());
                            None
                        },
                    };
                    run.chain = next;
                    let ghost mid = run@;
                    let step = self.advance(&mut run);
                    proof {
                        lemma_next_step_awaits(self.handlers_spec(), self.chains_spec(), mid.execs, mid.pos, mid.chain);
                    }
                    (run, step)
                }
            },
        }
    }
}

/// A copy of a list of executables.
fn clone_list(v: &Vec<Executable>) -> (r: Vec<Executable>)
    ensures
        exec_views(r@) == exec_views(v@),
{
    let mut r: Vec<Executable> = Vec::new();
    let mut i: usize = 0;
    while i < v.len()
        invariant
            i <= v@.len(),
            exec_views(r@) == exec_views(v@.take(i as int)),
        decreases v@.len() - i,
    {
        let ghost prev = r@;
        let c = v[i].clone();
        let ghost cv = c@;
        r.push(c);
        proof {
            assert(v@.take(i + 1) =~= v@.take(i as int).push(v@[i as int]));
            assert(exec_views(r@) =~= exec_views(prev).push(cv));
            assert(exec_views(v@.take(i + 1)) =~= exec_views(v@.take(i as int)).push(v@[i as int]@));
        }
        i = i + 1;
    }
    proof {
        assert(v@.take(v@.len() as int) =~= v@);
    }
    r
}

/// A run that asks for a handler waits for that handler.
pub proof fn lemma_next_step_awaits<H>(
    handlers: StrMap<H>,
    chains: StrMap<Vec<HandlerId>>,
    execs: Seq<ExecView>,
    pos: nat,
    chain: Option<(Seq<char>, Seq<Seq<char>>, nat)>,
)
    requires
        chain is Some ==> pos < execs.len(),
    ensures
        next_step(handlers, chains, execs, pos, chain).1 matches StepView::Execute(h)
            ==> awaiting(next_step(handlers, chains, execs, pos, chain).0)
                && current_handler(next_step(handlers, chains, execs, pos, chain).0) == h,
    decreases execs.len() - pos, (if chain is None { 1int } else { 0int }), (match chain {
        Some(c) => c.1.len() - c.2,
        None => 0,
    }),
{
    match chain {
        Some((c, hs, cp)) => {
            if cp >= hs.len() && pos < execs.len() {
                lemma_next_step_awaits(handlers, chains, execs, pos + 1, None);
            }
        },
        None => {
            if pos < execs.len() {
                match execs[pos as int] {
                    ExecView::Chain(c) => {
                        if let Some(hs) = chain_of(chains, c) {
                            lemma_next_step_awaits(handlers, chains, execs, pos, Some((c, hs, 0)));
                        }
                    },
                    _ => {},
                }
            }
        },
    }
}

/// A handler that reports an error status without completing the request
/// ends the run with a failure that names it, with the chain it ran in
/// where it ran in one; a handler that stands directly among the route's
/// executables fails the run just the same.
pub proof fn lemma_error_status_fails_run<H>(
    handlers: StrMap<H>,
    chains: StrMap<Vec<HandlerId>>,
    rv: RunView,
)
    requires
        awaiting(rv),
    ensures
        after_report(handlers, chains, rv, ReportView::Status { completed: false, error: true }) == (rv, StepView::Failed(
            match rv.chain {
                Some((c, hs, cp)) => FailView::ErrorStatus(hs[cp as int], Some(c)),
                None => FailView::ErrorStatus(rv.execs[rv.pos as int]->Handler_0, None),
            },
        )),
{
}

/// A handler that failed to execute ends the run with its message; a
/// handler that completes the request ends the run with success where it
/// stands directly among the route's executables, and inside a named chain
/// ends only that chain: the run goes on after the chain's executable.
pub proof fn lemma_completion_and_failure_end_run<H>(
    handlers: StrMap<H>,
    chains: StrMap<Vec<HandlerId>>,
    rv: RunView,
    msg: Seq<char>,
    error: bool,
)
    requires
        awaiting(rv),
    ensures
        after_report(handlers, chains, rv, ReportView::Failed(msg)) == (rv, StepView::Failed(FailView::ExecutionFailed(msg))),
        rv.chain is None ==> after_report(handlers, chains, rv, ReportView::Status { completed: true, error })
            == (rv, StepView::Succeeded),
        rv.chain is Some ==> after_report(handlers, chains, rv, ReportView::Status { completed: true, error })
            == next_step(handlers, chains, rv.execs, rv.pos + 1, None),
{
}

/// Whether run `b` stands strictly later than run `a` in the order in which
/// handlers run: at a later executable, or later in the same chain.
pub open spec fn later(a: RunView, b: RunView) -> bool {
    ||| b.pos > a.pos
    ||| (b.pos == a.pos && match (a.chain, b.chain) {
        (Some(x), Some(y)) => y.2 > x.2,
        (None, Some(_)) => true,
        _ => false,
    })
}

proof fn lemma_next_step_facts<H>(
    handlers: StrMap<H>,
    chains: StrMap<Vec<HandlerId>>,
    execs: Seq<ExecView>,
    pos: nat,
    chain: Option<(Seq<char>, Seq<Seq<char>>, nat)>,
)
    ensures
        ({
            let (rv, step) = next_step(handlers, chains, execs, pos, chain);
            &&& rv.execs == execs
            &&& (rv.pos > pos || (rv.pos == pos && (rv.chain == chain || (chain is None && rv.chain is Some && (rv.chain->0).2 == 0))))
            &&& (step matches StepView::Execute(h) ==> handlers.contains_spec(h))
        }),
    decreases execs.len() - pos, (if chain is None { 1int } else { 0int }), (match chain {
        Some(c) => c.1.len() - c.2,
        None => 0,
    }),
{
    match chain {
        Some((c, hs, cp)) => {
            if cp >= hs.len() && pos < execs.len() {
                lemma_next_step_facts(handlers, chains, execs, pos + 1, None);
            }
        },
        None => {
            if pos < execs.len() {
                match execs[pos as int] {
                    ExecView::Chain(c) => {
                        if let Some(hs) = chain_of(chains, c) {
                            lemma_next_step_facts(handlers, chains, execs, pos, Some((c, hs, 0)));
                        }
                    },
                    _ => {},
                }
            }
        },
    }
}

/// A run only ever asks for registered handlers, and each handler it asks
/// for after a report stands strictly later in the run than the one that
/// reported, so no handler of a route runs twice in one place and every
/// run ends.
pub proof fn lemma_run_progress<H>(
    handlers: StrMap<H>,
    chains: StrMap<Vec<HandlerId>>,
    rv: RunView,
    report: ReportView,
)
    requires
        awaiting(rv),
    ensures
        after_report(handlers, chains, rv, report).1 matches StepView::Execute(h)
            ==> handlers.contains_spec(h) && later(rv, after_report(handlers, chains, rv, report).0),
{
    match report {
        ReportView::Status { completed, error } => {
            if completed {
                if rv.chain is Some {
                    lemma_next_step_facts(handlers, chains, rv.execs, rv.pos + 1, None);
                }
            } else if !error {
                match rv.chain {
                    Some((c, hs, cp)) => lemma_next_step_facts(handlers, chains, rv.execs, rv.pos, Some((c, hs, cp + 1))),
                    None => lemma_next_step_facts(handlers, chains, rv.execs, rv.pos + 1, None),
                }
            }
        },
        _ => {},
    }
}

} // verus!
