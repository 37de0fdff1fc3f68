//! Running a loaded chain: request handlers in order, then the termination
//! handler, then response handlers in order. The decisions that the
//! router and the default executor take after each handler are made here;
//! the caller runs the handlers and reports how each went.
use vstd::prelude::*;
use crate::handler::MiddlewareResponse;
use crate::status::ExchangeState;
use crate::exchange::stream::ExchangeError;

verus! {

/// Which handler of a chain runs.
#[derive(Debug, Clone, Copy, PartialEq, Eq, Structural)]
pub enum Stage {
    Request(usize),
    Termination,
    Response(usize),
}

/// The stage that starts a chain of `n_request` request handlers.
pub open spec fn entry_stage(n_request: nat) -> Stage {
    if n_request > 0 {
        Stage::Request(0)
    } else {
        Stage::Termination
    }
}

/// The stage after request handler `i`.
pub open spec fn after_request(n_request: nat, i: nat) -> Stage {
    if i + 1 < n_request {
        Stage::Request((i + 1) as usize)
    } else {
        Stage::Termination
    }
}

/// The stage after the termination handler, or none at the end.
pub open spec fn after_termination(n_response: nat) -> Option<Stage> {
    if n_response > 0 {
        Some(Stage::Response(0))
    } else {
        None
    }
}

/// The stage after response handler `i`, or none at the end.
pub open spec fn after_response(n_response: nat, i: nat) -> Option<Stage> {
    if i + 1 < n_response {
        Some(Stage::Response((i + 1) as usize))
    } else {
        None
    }
}

/// Where the run of a chain stands.
#[derive(Debug, Clone, Copy)]
pub struct ChainRun {
    pub n_request: usize,
    pub n_response: usize,
    pub stage: Stage,
}

impl ChainRun {
    /// The stage is one of the chain's.
    pub open spec fn wf(&self) -> bool {
        match self.stage {
            Stage::Request(i) => i < self.n_request,
            Stage::Termination => true,
            Stage::Response(i) => i < self.n_response,
        }
    }

    /// The run at stage `s` of the same chain.
    pub open spec fn at(&self, s: Stage) -> ChainRun {
        ChainRun { stage: s, ..*self }
    }
}

/// The places where the router does not handle an outcome yet; the
/// caller stops there.
#[derive(Debug, Clone, Copy, PartialEq, Eq, Structural)]
pub enum Unhandled {
    /// A request handler asked to stop the chain.
    RequestBreak,
    /// A request handler failed.
    RequestError,
    /// The termination handler failed.
    TerminationError,
    /// A response handler asked to stop the chain.
    ResponseBreak,
    /// A response handler failed.
    ResponseError,
}

/// What the router does next.
#[derive(Debug, Clone, Copy, PartialEq, Eq, Structural)]
pub enum RouterStep {
    /// Run the handler of this stage.
    Run(Stage),
    /// Hand back the data of the response exchange.
    Finish,
    /// Stop: the outcome is not handled.
    Stop(Unhandled),
}

/// How a middleware handler went.
#[derive(Debug, Clone, Copy, PartialEq, Eq, Structural)]
pub enum MiddlewareOutcome {
    Flow(MiddlewareResponse),
    Failed,
}

/// The step after `outcome` of the handler at the stage of `run`.
pub open spec fn router_after(run: ChainRun, outcome: MiddlewareOutcome) -> (ChainRun, RouterStep) {
    match run.stage {
        Stage::Request(i) => match outcome {
            MiddlewareOutcome::Flow(MiddlewareResponse::Continue) => {
                let s = after_request(run.n_request as nat, i as nat);
                (run.at(s), RouterStep::Run(s))
            },
            MiddlewareOutcome::Flow(MiddlewareResponse::Break) => (run, RouterStep::Stop(Unhandled::RequestBreak)),
            MiddlewareOutcome::Failed => (run, RouterStep::Stop(Unhandled::RequestError)),
        },
        Stage::Termination => match outcome {
            MiddlewareOutcome::Failed => (run, RouterStep::Stop(Unhandled::TerminationError)),
            _ => match after_termination(run.n_response as nat) {
                Some(s) => (run.at(s), RouterStep::Run(s)),
                None => (run, RouterStep::Finish),
            },
        },
        Stage::Response(i) => match outcome {
            MiddlewareOutcome::Flow(MiddlewareResponse::Continue) => match after_response(run.n_response as nat, i as nat) {
                Some(s) => (run.at(s), RouterStep::Run(s)),
                None => (run, RouterStep::Finish),
            },
            MiddlewareOutcome::Flow(MiddlewareResponse::Break) => (run, RouterStep::Stop(Unhandled::ResponseBreak)),
            MiddlewareOutcome::Failed => (run, RouterStep::Stop(Unhandled::ResponseError)),
        },
    }
}

impl ChainRun {
    /// Starts the run of a chain with `n_request` request handlers and
    /// `n_response` response handlers: the first handler to run.
    pub fn start(n_request: usize, n_response: usize) -> (r: (ChainRun, Stage))
        ensures
            r.0.n_request == n_request,
            r.0.n_response == n_response,
            r.0.stage == entry_stage(n_request as nat),
            r.1 == r.0.stage,
            r.0.wf(),
    {
        let stage = if n_request > 0 { Stage::Request(0) } else { Stage::Termination };
        (ChainRun { n_request, n_response, stage }, stage)
    }

    /// The stage after a request handler, or after the termination
    /// handler, or after a response handler, when the chain goes on.
    fn next_stage(&self) -> (r: Option<Stage>)
        requires
            self.wf(),
        ensures
            r == match self.stage {
                Stage::Request(i) => Some(after_request(self.n_request as nat, i as nat)),
                Stage::Termination => after_termination(self.n_response as nat),
                Stage::Response(i) => after_response(self.n_response as nat, i as nat),
            },
    {
        match self.stage {
            Stage::Request(i) => {
                if i + 1 < self.n_request {
                    Some(Stage::Request(i + 1))
                } else {
                    Some(Stage::Termination)
                }
            },
            Stage::Termination => {
                if self.n_response > 0 {
                    Some(Stage::Response(0))
                } else {
                    None
                }
            },
            Stage::Response(i) => {
                if i + 1 < self.n_response {
                    Some(Stage::Response(i + 1))
                } else {
                    None
                }
            },
        }
    }

    /// The router's decision after the handler of the current stage
    /// reported `outcome`: a request or response handler that continues
    /// hands over to the next handler, the termination handler's output
    /// goes to the response handlers, and the chain finishes after the
    /// last handler; a handler that stops the chain or fails is not handled.
    pub fn after_middleware(self, outcome: MiddlewareOutcome) -> (r: (ChainRun, RouterStep))
        requires
            self.wf(),
        ensures
            r == router_after(self, outcome),
            r.0.wf(),
    {
        match self.stage {
            Stage::Request(_) => match outcome {
                MiddlewareOutcome::Flow(MiddlewareResponse::Continue) => {
                    let s = match self.next_stage() {
                        Some(s) => s,
                        None => Stage::Termination,
                    };
                    (ChainRun { stage: s, ..self }, RouterStep::Run(s))
                },
                MiddlewareOutcome::Flow(MiddlewareResponse::Break) => (self, RouterStep::Stop(Unhandled::RequestBreak)),
                MiddlewareOutcome::Failed => (self, RouterStep::Stop(Unhandled::RequestError)),
            },
            Stage::Termination => match outcome {
                MiddlewareOutcome::Failed => (self, RouterStep::Stop(Unhandled::TerminationError)),
                _ => match self.next_stage() {
                    Some(s) => (ChainRun { stage: s, ..self }, RouterStep::Run(s)),
                    None => (self, RouterStep::Finish),
                },
            },
            Stage::Response(_) => match outcome {
                MiddlewareOutcome::Flow(MiddlewareResponse::Continue) => match self.next_stage() {
                    Some(s) => (ChainRun { stage: s, ..self }, RouterStep::Run(s)),
                    None => (self, RouterStep::Finish),
                },
                MiddlewareOutcome::Flow(MiddlewareResponse::Break) => (self, RouterStep::Stop(Unhandled::ResponseBreak)),
                MiddlewareOutcome::Failed => (self, RouterStep::Stop(Unhandled::ResponseError)),
            },
        }
    }
}

impl ExchangeState {
    /// Whether the exchange is still being processed.
    pub fn is_in_flight(&self) -> (b: bool)
        ensures
            b == (*self == ExchangeState::LIVE),
    {
        match self {
            ExchangeState::LIVE => true,
            _ => false,
        }
    }

    /// Whether the exchange has completed.
    pub fn is_completed(&self) -> (b: bool)
        ensures
            b == (*self == ExchangeState::COMPLETED),
    {
        match self {
            ExchangeState::COMPLETED => true,
            _ => false,
        }
    }

    /// Whether the exchange has failed.
    pub fn is_error(&self) -> (b: bool)
        ensures
            b == (*self == ExchangeState::ERROR),
    {
        match self {
            ExchangeState::ERROR => true,
            _ => false,
        }
    }
}

/// What the default executor does next.
#[derive(Debug, Clone, Copy, PartialEq, Eq, Structural)]
pub enum ExecutorStep {
    /// Run the handler of this stage.
    Run(Stage),
    /// Extract the output of the exchange and return it.
    ReturnOutput,
    /// Fail: the exchange is in a state the executor does not know.
    UnknownState(ExchangeState),
}

/// The step after the handler at the stage of `run` left the exchange in
/// `state`: a completed or failed exchange returns its output at once; an
/// exchange in flight goes on to the next handler, and returns its output
/// after the last one.
pub open spec fn executor_after(run: ChainRun, state: ExchangeState) -> (ChainRun, ExecutorStep) {
    if state == ExchangeState::COMPLETED || state == ExchangeState::ERROR {
        (run, ExecutorStep::ReturnOutput)
    } else if state != ExchangeState::LIVE {
        (run, ExecutorStep::UnknownState(state))
    } else {
        let next = match run.stage {
            Stage::Request(i) => Some(after_request(run.n_request as nat, i as nat)),
            Stage::Termination => after_termination(run.n_response as nat),
            Stage::Response(i) => after_response(run.n_response as nat, i as nat),
        };
        match next {
            Some(s) => (run.at(s), ExecutorStep::Run(s)),
            None => (run, ExecutorStep::ReturnOutput),
        }
    }
}

/// A handler that fails, or a request or response handler that asks to
/// stop, ends the chain where it stands: no further handler runs, and the
/// stop names where it happened and why.
pub proof fn lemma_router_stops_on_break_or_failure(run: ChainRun, outcome: MiddlewareOutcome)
    requires
        outcome == MiddlewareOutcome::Failed
            || (outcome == MiddlewareOutcome::Flow(MiddlewareResponse::Break) && !(run.stage is Termination)),
    ensures
        router_after(run, outcome).0 == run,
        router_after(run, outcome).1 == RouterStep::Stop(match (run.stage, outcome) {
            (Stage::Request(_), MiddlewareOutcome::Failed) => Unhandled::RequestError,
            (Stage::Request(_), _) => Unhandled::RequestBreak,
            (Stage::Termination, _) => Unhandled::TerminationError,
            (Stage::Response(_), MiddlewareOutcome::Failed) => Unhandled::ResponseError,
            (Stage::Response(_), _) => Unhandled::ResponseBreak,
        }),
{
}

/// Whatever handler ran, the request, termination or a response handler,
/// an exchange it left completed or failed ends the chain: the executor
/// returns the output at once and the run stays where it is.
pub proof fn lemma_finished_exchange_returns_output(run: ChainRun, state: ExchangeState)
    requires
        state == ExchangeState::COMPLETED || state == ExchangeState::ERROR,
    ensures
        executor_after(run, state).0 == run,
        executor_after(run, state).1 == ExecutorStep::ReturnOutput,
{
}

impl ChainRun {
    /// The default executor's decision after the handler of the current
    /// stage left the exchange in `state`.
    pub fn after_status(self, state: ExchangeState) -> (r: (ChainRun, ExecutorStep))
        requires
            self.wf(),
        ensures
            r == executor_after(self, state),
            r.0.wf(),
    {
        if state.is_completed() || state.is_error() {
            (self, ExecutorStep::ReturnOutput)
        } else if !state.is_in_flight() {
            (self, ExecutorStep::UnknownState(state))
        } else {
            match self.next_stage() {
                Some(s) => (ChainRun { stage: s, ..self }, ExecutorStep::Run(s)),
                None => (self, ExecutorStep::ReturnOutput),
            }
        }
    }
}

/// The stages of a chain in the order its handlers run.
pub open spec fn stage_order(n_request: nat, n_response: nat) -> Seq<Stage> {
    Seq::new(n_request, |i: int| Stage::Request(i as usize))
        + seq![Stage::Termination]
        + Seq::new(n_response, |i: int| Stage::Response(i as usize))
}

/// The position of stage `s` in the order of a chain's handlers.
pub open spec fn stage_index(n_request: nat, s: Stage) -> int {
    match s {
        Stage::Request(i) => i as int,
        Stage::Termination => n_request as int,
        Stage::Response(i) => n_request + 1 + i,
    }
}

/// When every handler lets the chain go on, the router runs the handlers
/// of a chain in order: request handlers, the termination handler, then
/// response handlers; the stage after the `k`-th handler is the `k+1`-th
/// of that order, and the chain finishes after the last one.
pub proof fn lemma_router_runs_in_order(run: ChainRun)
    requires
        run.wf(),
        run.n_request + 1 + run.n_response <= usize::MAX,
    ensures
        ({
            let order = stage_order(run.n_request as nat, run.n_response as nat);
            let k = stage_index(run.n_request as nat, run.stage);
            let (next, step) = router_after(run, MiddlewareOutcome::Flow(MiddlewareResponse::Continue));
            &&& 0 <= k < order.len()
            &&& order[k] == run.stage
            &&& (k + 1 < order.len() ==> step == RouterStep::Run(order[k + 1]) && next.stage == order[k + 1] && next.wf())
            &&& (k + 1 == order.len() ==> step == RouterStep::Finish)
        }),
{
    let nq = run.n_request as nat;
    let nr = run.n_response as nat;
    let order = stage_order(nq, nr);
    let a = Seq::new(nq, |i: int| Stage::Request(i as usize));
    let b = Seq::new(nr, |i: int| Stage::Response(i as usize));
    assert(order == a + seq![Stage::Termination] + b);
    assert(order.len() == nq + 1 + nr);
    match run.stage {
        Stage::Request(i) => {
            assert(order[i as int] == a[i as int]);
            if i + 1 < nq {
                assert(order[i + 1] == a[i + 1]);
            } else {
                assert(order[i + 1] == Stage::Termination);
            }
        },
        Stage::Termination => {
            assert(order[nq as int] == Stage::Termination);
            if nr > 0 {
                assert(order[nq + 1int] == b[0]);
            }
        },
        Stage::Response(i) => {
            assert(order[nq + 1 + i] == b[i as int]);
            if i + 1 < nr {
                assert(order[nq + 1 + i + 1] == b[i + 1]);
            }
        },
    }
}

/// When every handler leaves the exchange in flight, the default executor
/// runs the handlers of a chain in the same order, and returns the output
/// of the exchange after the last one.
pub proof fn lemma_executor_runs_in_order(run: ChainRun)
    requires
        run.wf(),
        run.n_request + 1 + run.n_response <= usize::MAX,
    ensures
        ({
            let order = stage_order(run.n_request as nat, run.n_response as nat);
            let k = stage_index(run.n_request as nat, run.stage);
            let (next, step) = executor_after(run, ExchangeState::LIVE);
            &&& 0 <= k < order.len()
            &&& order[k] == run.stage
            &&& (k + 1 < order.len() ==> step == ExecutorStep::Run(order[k + 1]) && next.stage == order[k + 1] && next.wf())
            &&& (k + 1 == order.len() ==> step == ExecutorStep::ReturnOutput)
        }),
{
    lemma_router_runs_in_order(run);
}

/// Why the default executor failed.
#[derive(Debug)]
pub enum ExecutorError {
    /// The exchange was left in a state the executor does not know.
    State { state: ExchangeState },
    /// The output could not be extracted from the exchange.
    Output { source: ExchangeError },
}

impl ExecutorError {
    pub fn output_read_error(err: ExchangeError) -> (e: Self)
        ensures
            e == (ExecutorError::Output { source: err }),
    {
        ExecutorError::Output { source: err }
    }

    pub fn unknown_exchange_state(state: ExchangeState) -> (e: Self)
        ensures
            e == (ExecutorError::State { state }),
    {
        ExecutorError::State { state }
    }

    /// The text displayed for the error.
    pub fn to_text(&self) -> (r: String)
        ensures
            r@ == (match self {
                ExecutorError::State { state } => "Exchange is in an unknown state: "@ + match state {
                    ExchangeState::LIVE => "LIVE"@,
                    ExchangeState::COMPLETED => "COMPLETED"@,
                    ExchangeState::ERROR => "ERROR"@,
                },
                ExecutorError::Output { .. } => "Failed to extract output from exchange."@,
            }),
    {
        match self {
            ExecutorError::State { state } => {
                let mut r = "Exchange is in an unknown state: ".to_owned();
                let t = state.to_text();
                r.push_str(t.as_str());
                r
            },
            ExecutorError::Output { .. } => "Failed to extract output from exchange.".to_owned(),
        }
    }
}

/// The executor that runs a chain's handlers in order and hands back the
/// output of the exchange.
pub struct DefaultExecutor<Output> {
    pub _phantom: core::marker::PhantomData<Output>,
}

impl<Output> DefaultExecutor<Output> {
    /// The executor; it holds nothing but its output type.
    pub fn new() -> (e: Self)
        ensures
            e == (DefaultExecutor::<Output> { _phantom: core::marker::PhantomData }),
    {
        DefaultExecutor { _phantom: core::marker::PhantomData }
    }
}

} // verus!
