//! Running a chain of handlers named by number until one of them completes
//! the request. The executor decides, from each handler's report, which
//! handler runs next; the caller runs the handlers.
use vstd::prelude::*;
use std::collections::HashMap;
use fnv::FnvBuildHasher;
use crate::ext::{fnv_map_get, fnv_map_insert, fnv_map_new};
use crate::dispatch::next_index;

verus! {

/// Handlers by number, and the runs of chains of them.
pub struct HandlerExecutor<H> {
    pub handlers: HashMap<u64, H, FnvBuildHasher>,
}

/// The places where the executor does not handle an outcome yet; the
/// caller stops there.
#[derive(Debug, Clone, Copy, PartialEq, Eq, Structural)]
pub enum Unfinished {
    /// A handler returned an error status, or a partial completion.
    ErrorInChain,
    /// A handler failed to execute.
    HandlerFailed,
    /// No handler of the chain completed the request.
    ChainNotCompleted,
}

/// What the caller does next.
#[derive(Debug, Clone, Copy, PartialEq, Eq, Structural)]
pub enum HandleStep {
    /// Run the handler with this number.
    Execute(u64),
    /// Take the output from the exchange and report whether it was there.
    TakeOutput,
    /// Return the output taken.
    Finish,
    /// Stop: the outcome is not handled.
    Stop(Unfinished),
}

/// How a handler went: the flags of its status, or a failure.
#[derive(Debug, Clone, Copy, PartialEq, Eq, Structural)]
pub enum HandleReport {
    /// `completed`: the status has all the flags of a completed request;
    /// `flagged`: it has any of the error, timeout or completion flags.
    Status { completed: bool, flagged: bool },
    Failed,
}

/// Where the run of a chain stands: the position of the current handler.
#[derive(Debug, Clone, Copy, PartialEq, Eq, Structural)]
pub struct HandleRun {
    pub position: usize,
}

/// From position `pos`, the first handler of `chain` that is registered,
/// or the end of the chain: unregistered numbers are skipped.
pub open spec fn next_registered<H>(handlers: Map<u64, H>, chain: Seq<u64>, pos: nat) -> (HandleRun, HandleStep)
    decreases chain.len() - pos,
{
    if pos < chain.len() {
        if handlers.dom().contains(chain[pos as int]) {
            (HandleRun { position: pos as usize }, HandleStep::Execute(chain[pos as int]))
        } else {
            next_registered(handlers, chain, pos + 1)
        }
    } else {
        (HandleRun { position: pos as usize }, HandleStep::Stop(Unfinished::ChainNotCompleted))
    }
}

/// The step after the current handler reported `report`: a completed
/// request has its output taken; a flagged status or a failure is not
/// handled; otherwise the next registered handler runs.
pub open spec fn after_handle_report<H>(handlers: Map<u64, H>, chain: Seq<u64>, run: HandleRun, report: HandleReport) -> (HandleRun, HandleStep) {
    match report {
        HandleReport::Failed => (run, HandleStep::Stop(Unfinished::HandlerFailed)),
        HandleReport::Status { completed, flagged } => {
            if completed {
                (run, HandleStep::TakeOutput)
            } else if flagged {
                (run, HandleStep::Stop(Unfinished::ErrorInChain))
            } else {
                next_registered(handlers, chain, run.position as nat + 1)
            }
        },
    }
}

/// The step after the output was taken, or was not there: the output is
/// returned, or the next registered handler runs.
pub open spec fn after_output<H>(handlers: Map<u64, H>, chain: Seq<u64>, run: HandleRun, taken: bool) -> (HandleRun, HandleStep) {
    if taken {
        (run, HandleStep::Finish)
    } else {
        next_registered(handlers, chain, run.position as nat + 1)
    }
}

proof fn lemma_next_registered<H>(handlers: Map<u64, H>, chain: Seq<u64>, pos: nat)
    requires
        chain.len() <= usize::MAX,
    ensures
        ({
            let (run, step) = next_registered(handlers, chain, pos);
            match step {
                HandleStep::Execute(id) => pos <= run.position < chain.len()
                    && chain[run.position as int] == id && handlers.dom().contains(id)
                    && forall|k: int| pos <= k < run.position ==> !handlers.dom().contains(#[trigger] chain[k]),
                HandleStep::Stop(u) => u == Unfinished::ChainNotCompleted
                    && forall|k: int| pos <= k < chain.len() ==> !handlers.dom().contains(#[trigger] chain[k]),
                _ => false,
            }
        }),
    decreases chain.len() - pos,
{
    if pos < chain.len() && !handlers.dom().contains(chain[pos as int]) {
        lemma_next_registered(handlers, chain, pos + 1);
    }
}

/// After a handler completed the request, a taken output finishes the
/// run where it stands. An output that was not there to take lets the
/// chain go on: the next handler to run is the first registered one after
/// the current position, and the chain ends unfinished only when no
/// registered handler is left after it.
pub proof fn lemma_output_taken_or_chain_goes_on<H>(handlers: Map<u64, H>, chain: Seq<u64>, run: HandleRun)
    requires
        run.position < chain.len(),
        chain.len() <= usize::MAX,
    ensures
        after_output(handlers, chain, run, true) == (run, HandleStep::Finish),
        ({
            let (next, step) = after_output(handlers, chain, run, false);
            if exists|j: int| run.position < j < chain.len() && handlers.dom().contains(#[trigger] chain[j]) {
                match step {
                    HandleStep::Execute(id) => run.position < next.position < chain.len()
                        && chain[next.position as int] == id && handlers.dom().contains(id)
                        && forall|k: int| run.position < k < next.position ==> !handlers.dom().contains(#[trigger] chain[k]),
                    _ => false,
                }
            } else {
                step == HandleStep::Stop(Unfinished::ChainNotCompleted)
            }
        }),
{
    lemma_next_registered(handlers, chain, run.position as nat + 1);
}

/// After a handler's report: a failure, or a status flagged as an error
/// or timeout without completion, stops the chain where it stands; a
/// completed request has its output taken; otherwise the chain goes on
/// with the first registered handler after the current position, and ends
/// unfinished only when none is left.
pub proof fn lemma_report_decides_next_handler<H>(handlers: Map<u64, H>, chain: Seq<u64>, run: HandleRun, report: HandleReport)
    requires
        run.position < chain.len(),
        chain.len() <= usize::MAX,
    ensures
        ({
            let (next, step) = after_handle_report(handlers, chain, run, report);
            match report {
                HandleReport::Failed => next == run && step == HandleStep::Stop(Unfinished::HandlerFailed),
                HandleReport::Status { completed: true, flagged: _ } => next == run && step == HandleStep::TakeOutput,
                HandleReport::Status { completed: false, flagged: true } => next == run
                    && step == HandleStep::Stop(Unfinished::ErrorInChain),
                HandleReport::Status { completed: false, flagged: false } => {
                    if exists|j: int| run.position < j < chain.len() && handlers.dom().contains(#[trigger] chain[j]) {
                        match step {
                            HandleStep::Execute(id) => run.position < next.position < chain.len()
                                && chain[next.position as int] == id && handlers.dom().contains(id)
                                && forall|k: int| run.position < k < next.position ==> !handlers.dom().contains(#[trigger] chain[k]),
                            _ => false,
                        }
                    } else {
                        step == HandleStep::Stop(Unfinished::ChainNotCompleted)
                    }
                },
            }
        }),
{
    lemma_next_registered(handlers, chain, run.position as nat + 1);
}

impl<H> HandlerExecutor<H> {
    /// An executor with no handlers.
    pub fn new() -> (e: Self)
        ensures
            e.handlers@.dom().is_empty(),
    {
        HandlerExecutor { handlers: fnv_map_new() }
    }

    /// Registers `handler` under `handler_id`, replacing any handler of that
    /// number.
    pub fn add_handler(&mut self, handler_id: u64, handler: H) -> (r: &mut Self)
        ensures
            r.handlers@ == old(self).handlers@.insert(handler_id, handler),
            *final(self) == *final(r),
    {
        fnv_map_insert(&mut self.handlers, handler_id, handler);
        self
    }

    /// The handler registered under `handler_id`.
    pub fn handler(&self, handler_id: u64) -> (r: Option<&H>)
        ensures
            match r {
                Some(h) => self.handlers@.dom().contains(handler_id) && *h == self.handlers@[handler_id],
                None => !self.handlers@.dom().contains(handler_id),
            },
    {
        fnv_map_get(&self.handlers, handler_id)
    }

    /// The first registered handler of `chain` from position `pos`.
    fn advance(&self, chain: &Vec<u64>, pos: usize) -> (r: (HandleRun, HandleStep))
        requires
            pos <= chain@.len(),
        ensures
            r == next_registered(self.handlers@, chain@, pos as nat),
    {
        let mut p = pos;
        while p < chain.len()
            invariant
                pos <= p <= chain@.len(),
                next_registered(self.handlers@, chain@, p as nat) == next_registered(self.handlers@, chain@, pos as nat),
            decreases chain@.len() - p,
        {
            let id = chain[p];
            match self.handler(id) {
                Some(_) => return (HandleRun { position: p }, HandleStep::Execute(id)),
                None => {},
            }
            p = p + 1;
        }
        (HandleRun { position: p }, HandleStep::Stop(Unfinished::ChainNotCompleted))
    }

    /// Starts the run of `chain`: its first registered handler.
    pub fn start(&self, chain: &Vec<u64>) -> (r: (HandleRun, HandleStep))
        ensures
            r == next_registered(self.handlers@, chain@, 0),
    {
        self.advance(chain, 0)
    }

    /// The executor's decision after the current handler of `run` reported.
    pub fn after_report(&self, chain: &Vec<u64>, run: HandleRun, report: HandleReport) -> (r: (HandleRun, HandleStep))
        requires
            run.position < chain@.len(),
        ensures
            r == after_handle_report(self.handlers@, chain@, run, report),
    {
        match report {
            HandleReport::Failed => (run, HandleStep::Stop(Unfinished::HandlerFailed)),
            HandleReport::Status { completed, flagged } => {
                if completed {
                    (run, HandleStep::TakeOutput)
                } else if flagged {
                    (run, HandleStep::Stop(Unfinished::ErrorInChain))
                } else {
                    self.advance(chain, next_index(run.position, chain.len()))
                }
            },
        }
    }

    /// The executor's decision after the output of the exchange was taken,
    /// or was not there.
    pub fn after_take_output(&self, chain: &Vec<u64>, run: HandleRun, taken: bool) -> (r: (HandleRun, HandleStep))
        requires
            run.position < chain@.len(),
        ensures
            r == after_output(self.handlers@, chain@, run, taken),
    {
        if taken {
            (run, HandleStep::Finish)
        } else {
            self.advance(chain, next_index(run.position, chain.len()))
        }
    }
}

proof fn lemma_next_registered_facts<H>(handlers: Map<u64, H>, chain: Seq<u64>, pos: nat)
    requires
        pos <= chain.len() <= usize::MAX,
    ensures
        next_registered(handlers, chain, pos).0.position >= pos,
        next_registered(handlers, chain, pos).1 matches HandleStep::Execute(id) ==> {
            let p = next_registered(handlers, chain, pos).0.position;
            &&& p < chain.len()
            &&& chain[p as int] == id
            &&& handlers.dom().contains(id)
            &&& forall|q: int| pos <= q < p ==> !handlers.dom().contains(#[trigger] chain[q])
        },
    decreases chain.len() - pos,
{
    if pos < chain.len() && !handlers.dom().contains(chain[pos as int]) {
        lemma_next_registered_facts(handlers, chain, pos + 1);
    }
}

/// The executor runs registered handlers of a chain in order: after a
/// handler at position `p` lets the chain go on, the next handler to run is
/// the first registered one after `p`, and every number in between is
/// skipped because nothing is registered under it.
pub proof fn lemma_handle_runs_in_order<H>(handlers: Map<u64, H>, chain: Seq<u64>, run: HandleRun)
    requires
        run.position < chain.len() <= usize::MAX,
    ensures
        ({
            let (next, step) = after_handle_report(handlers, chain, run, HandleReport::Status { completed: false, flagged: false });
            &&& step matches HandleStep::Execute(id) ==> {
                &&& next.position > run.position
                &&& next.position < chain.len()
                &&& chain[next.position as int] == id
                &&& handlers.dom().contains(id)
                &&& forall|q: int| run.position < q < next.position ==> !handlers.dom().contains(#[trigger] chain[q])
            }
            &&& !(step is Execute) ==> step == HandleStep::Stop(Unfinished::ChainNotCompleted)
        }),
{
    lemma_next_registered_facts(handlers, chain, run.position as nat + 1);
    lemma_next_registered_ends(handlers, chain, run.position as nat + 1);
}

proof fn lemma_next_registered_ends<H>(handlers: Map<u64, H>, chain: Seq<u64>, pos: nat)
    ensures
        next_registered(handlers, chain, pos).1 is Execute
            || next_registered(handlers, chain, pos).1 == HandleStep::Stop(Unfinished::ChainNotCompleted),
    decreases chain.len() - pos,
{
    if pos < chain.len() && !handlers.dom().contains(chain[pos as int]) {
        lemma_next_registered_ends(handlers, chain, pos + 1);
    }
}

} // verus!
