use idemio::handler::MiddlewareResponse;
use idemio::router::pipeline::{
    ChainRun, ExecutorError, ExecutorStep, MiddlewareOutcome, RouterStep, Stage, Unhandled,
};
use idemio::status::ExchangeState;

fn cont() -> MiddlewareOutcome {
    MiddlewareOutcome::Flow(MiddlewareResponse::Continue)
}

#[test]
fn router_runs_handlers_in_order() {
    let (mut run, first) = ChainRun::start(2, 2);
    let mut seen = vec![first];
    loop {
        let (next, step) = run.after_middleware(cont());
        run = next;
        match step {
            RouterStep::Run(s) => seen.push(s),
            RouterStep::Finish => break,
            RouterStep::Stop(u) => panic!("unexpected stop {:?}", u),
        }
    }
    assert_eq!(
        seen,
        vec![
            Stage::Request(0),
            Stage::Request(1),
            Stage::Termination,
            Stage::Response(0),
            Stage::Response(1)
        ]
    );
}

#[test]
fn router_without_request_or_response_handlers() {
    let (run, first) = ChainRun::start(0, 0);
    assert_eq!(first, Stage::Termination);
    let (_, step) = run.after_middleware(cont());
    assert_eq!(step, RouterStep::Finish);
}

#[test]
fn router_unhandled_outcomes() {
    let (run, _) = ChainRun::start(1, 1);
    let (_, step) = run.after_middleware(MiddlewareOutcome::Flow(MiddlewareResponse::Break));
    assert_eq!(step, RouterStep::Stop(Unhandled::RequestBreak));
    let (_, step) = run.after_middleware(MiddlewareOutcome::Failed);
    assert_eq!(step, RouterStep::Stop(Unhandled::RequestError));
    let (run, _) = ChainRun::start(0, 1);
    let (_, step) = run.after_middleware(MiddlewareOutcome::Failed);
    assert_eq!(step, RouterStep::Stop(Unhandled::TerminationError));
    let (run, step) = run.after_middleware(cont());
    assert_eq!(step, RouterStep::Run(Stage::Response(0)));
    let (_, step) = run.after_middleware(MiddlewareOutcome::Flow(MiddlewareResponse::Break));
    assert_eq!(step, RouterStep::Stop(Unhandled::ResponseBreak));
    let (_, step) = run.after_middleware(MiddlewareOutcome::Failed);
    assert_eq!(step, RouterStep::Stop(Unhandled::ResponseError));
}

#[test]
fn executor_returns_output_when_a_handler_completes_or_fails() {
    let (run, first) = ChainRun::start(2, 1);
    assert_eq!(first, Stage::Request(0));
    let (run, step) = run.after_status(ExchangeState::LIVE);
    assert_eq!(step, ExecutorStep::Run(Stage::Request(1)));
    let (_, step) = run.after_status(ExchangeState::COMPLETED);
    assert_eq!(step, ExecutorStep::ReturnOutput);
    let (_, step) = run.after_status(ExchangeState::ERROR);
    assert_eq!(step, ExecutorStep::ReturnOutput);
}

#[test]
fn executor_runs_every_stage_while_in_flight() {
    let (mut run, first) = ChainRun::start(1, 1);
    let mut seen = vec![first];
    loop {
        let (next, step) = run.after_status(ExchangeState::LIVE);
        run = next;
        match step {
            ExecutorStep::Run(s) => seen.push(s),
            ExecutorStep::ReturnOutput => break,
            ExecutorStep::UnknownState(s) => panic!("unknown state {:?}", s),
        }
    }
    assert_eq!(seen, vec![Stage::Request(0), Stage::Termination, Stage::Response(0)]);
}

#[test]
fn executor_error_texts() {
    let e = ExecutorError::unknown_exchange_state(ExchangeState::LIVE);
    assert_eq!(e.to_text(), "Exchange is in an unknown state: LIVE");
    let o = ExecutorError::output_read_error(idemio::exchange::stream::ExchangeError::exchange_completed(1));
    assert_eq!(o.to_text(), "Failed to extract output from exchange.");
}

#[test]
fn exchange_state_predicates() {
    assert!(ExchangeState::LIVE.is_in_flight());
    assert!(ExchangeState::COMPLETED.is_completed());
    assert!(ExchangeState::ERROR.is_error());
    assert!(!ExchangeState::LIVE.is_completed());
    assert_eq!(ExchangeState::COMPLETED.to_text(), "COMPLETED");
}
