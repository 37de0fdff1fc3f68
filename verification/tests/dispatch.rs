use std::sync::Arc;

use idemio::collections::StrMap;
use idemio::dispatch::default_router::DefaultRouter;
use idemio::dispatch::executor::{HandleReport, HandleStep, HandlerExecutor, Unfinished};
use idemio::dispatch::route_table::{DynamicRouteTable, RouteKey, RouteTable};
use idemio::dispatch::run::{HandlerReport, RunFailure, RunStep};
use idemio::dispatch::tree::{split_all_exec, Router};
use idemio::dispatch::{ChainId, Executable, HandlerId, PathConfig, PathSegment, RouteInfo, RouterConfig};

fn create_test_executables() -> Arc<Vec<Executable>> {
    Arc::new(vec![
        Executable::Handler(HandlerId("test_handler".to_string())),
        Executable::Chain(ChainId("@test_chain".to_string())),
    ])
}

#[test]
fn test_route_table_static_routes() {
    let mut route_table = RouteTable::new();
    let executables = create_test_executables();

    route_table.insert("GET".to_string(), "/api/users".to_string(), executables.clone());

    let result = route_table.get("GET", "/api/users");
    assert!(result.is_some());
    assert_eq!(result.unwrap(), executables);

    let result = route_table.get("POST", "/api/users");
    assert!(result.is_none());

    let result = route_table.get("GET", "/api/products");
    assert!(result.is_none());
}

#[test]
fn test_dynamic_route_table() {
    let mut route_table = DynamicRouteTable::new();
    let executables1 = create_test_executables();
    let executables2 = Arc::new(vec![Executable::Handler(HandlerId("user_handler".to_string()))]);

    route_table.add_static_route("GET".to_string(), "/api/static".to_string(), executables1.clone());

    let path_segments = vec![
        PathSegment::Static("api".to_string()),
        PathSegment::Static("users".to_string()),
        PathSegment::Any("*".to_string()),
    ];
    route_table.add_dynamic_route("GET".to_string(), path_segments, executables2.clone());

    let route_info1 = RouteInfo::new("/api/static".to_string(), "GET".to_string());
    let result1 = route_table.lookup(&route_info1);
    assert!(result1.is_some());
    assert_eq!(result1.unwrap(), executables1);

    let route_info2 = RouteInfo::new("/api/users/123".to_string(), "GET".to_string());
    let result2 = route_table.lookup(&route_info2);
    assert!(result2.is_some());
    assert_eq!(result2.unwrap(), executables2);

    let route_info3 = RouteInfo::new("/api/products/123".to_string(), "GET".to_string());
    let result3 = route_table.lookup(&route_info3);
    assert!(result3.is_none());
}

#[test]
fn route_table_remove_and_clear() {
    let mut table = RouteTable::new();
    let e = create_test_executables();
    table.insert("GET".to_string(), "/a".to_string(), e.clone());
    table.insert("GET".to_string(), "/b".to_string(), e.clone());
    assert!(table.contains("GET", "/a"));
    let removed = table.remove("GET", "/a").unwrap();
    assert!(Arc::ptr_eq(&removed, &e));
    assert!(!table.contains("GET", "/a"));
    assert!(table.contains("GET", "/b"));
    assert!(table.remove("GET", "/a").is_none());
    table.clear();
    assert!(!table.contains("GET", "/b"));
}

#[test]
fn route_table_get_shares_the_stored_list() {
    let mut table = RouteTable::new();
    let e = create_test_executables();
    table.insert("GET".to_string(), "/a".to_string(), e.clone());
    let got = table.get("GET", "/a").unwrap();
    assert!(Arc::ptr_eq(&got, &e));
    assert_eq!(RouteKey::from_str("GET", "/a"), RouteKey::new("GET".to_string(), "/a"));
}

#[test]
fn dynamic_route_first_added_pattern_wins() {
    let mut table = DynamicRouteTable::new();
    let first = Arc::new(vec![Executable::Handler(HandlerId("first".to_string()))]);
    let second = Arc::new(vec![Executable::Handler(HandlerId("second".to_string()))]);
    table.add_dynamic_route(
        "GET".to_string(),
        vec![PathSegment::Static("api".to_string()), PathSegment::Any("*".to_string())],
        first.clone(),
    );
    table.add_dynamic_route(
        "GET".to_string(),
        vec![PathSegment::Static("api".to_string()), PathSegment::Static("x".to_string())],
        second.clone(),
    );
    let r = table.lookup(&RouteInfo::new("/api/x".to_string(), "GET".to_string())).unwrap();
    assert_eq!(r, first);
    let none = table.lookup(&RouteInfo::new("/api/x/y".to_string(), "GET".to_string()));
    assert!(none.is_none());
}

#[test]
fn dynamic_route_wildcard_first_segment_is_tried_second() {
    let mut table = DynamicRouteTable::new();
    let any_first = Arc::new(vec![Executable::Handler(HandlerId("any".to_string()))]);
    let static_first = Arc::new(vec![Executable::Handler(HandlerId("static".to_string()))]);
    table.add_dynamic_route(
        "GET".to_string(),
        vec![PathSegment::Any("*".to_string()), PathSegment::Static("b".to_string())],
        any_first.clone(),
    );
    table.add_dynamic_route(
        "GET".to_string(),
        vec![PathSegment::Static("a".to_string()), PathSegment::Any("*".to_string())],
        static_first.clone(),
    );
    let r = table.lookup(&RouteInfo::new("/a/b".to_string(), "GET".to_string())).unwrap();
    assert_eq!(r, static_first);
    let r = table.lookup(&RouteInfo::new("/z/b".to_string(), "GET".to_string())).unwrap();
    assert_eq!(r, any_first);
    assert!(table.lookup(&RouteInfo::new("/z/b".to_string(), "POST".to_string())).is_none());
    table.add_dynamic_route("PUT".to_string(), vec![], Arc::new(vec![]));
    assert!(table.lookup(&RouteInfo::new("/x".to_string(), "PUT".to_string())).is_none());
}

#[test]
fn executables_parse() {
    assert_eq!(Executable::from_str("@chain"), Executable::Chain(ChainId("@chain".to_string())));
    assert_eq!(Executable::from_str("handler"), Executable::Handler(HandlerId("handler".to_string())));
    assert_eq!(Executable::from_str(""), Executable::Handler(HandlerId("".to_string())));
    assert_eq!(PathSegment::from_str("*"), PathSegment::Any("*".to_string()));
    assert_eq!(PathSegment::from_str("api"), PathSegment::Static("api".to_string()));
    assert_eq!(Executable::from_str("@c").to_text(), "Chain(ChainId(@c))");
    assert_eq!(Executable::from_str("h").to_text(), "Handler(HandlerId(h))");
    assert_eq!(
        RouteInfo::new("/p".to_string(), "GET".to_string()).to_text(),
        "RouteInfo { path: /p, method: GET }"
    );
}

fn config_with(paths: Vec<(&str, Vec<(&str, Vec<Executable>)>)>, chains: Vec<(&str, Vec<&str>)>) -> RouterConfig {
    let mut chain_map = StrMap::new();
    for (name, handlers) in chains {
        chain_map.insert(name.to_string(), handlers.into_iter().map(|h| HandlerId(h.to_string())).collect());
    }
    let mut path_map = StrMap::new();
    for (path, methods) in paths {
        let mut method_map = StrMap::new();
        for (method, execs) in methods {
            method_map.insert(method.to_string(), execs);
        }
        path_map.insert(path.to_string(), PathConfig { methods: method_map });
    }
    RouterConfig { chains: chain_map, paths: path_map }
}

fn h(name: &str) -> Executable {
    Executable::Handler(HandlerId(name.to_string()))
}

fn c(name: &str) -> Executable {
    Executable::Chain(ChainId(name.to_string()))
}

#[test]
fn default_router_routes_configured_paths() {
    let config = config_with(
        vec![
            ("/api/users", vec![("GET", vec![h("list")]), ("POST", vec![h("create")])]),
            ("/api/users/*", vec![("GET", vec![h("one")])]),
        ],
        vec![],
    );
    let router: DefaultRouter<(), ()> = DefaultRouter::new(config, ());
    let get = router.get_handlers_from_route_info(&RouteInfo::new("/api/users".to_string(), "GET".to_string()));
    assert_eq!(*get.unwrap(), vec![h("list")]);
    let post = router.get_handlers_from_route_info(&RouteInfo::new("/api/users".to_string(), "POST".to_string()));
    assert_eq!(*post.unwrap(), vec![h("create")]);
    let one = router.get_handlers_from_route_info(&RouteInfo::new("/api/users/7".to_string(), "GET".to_string()));
    assert_eq!(*one.unwrap(), vec![h("one")]);
    let none = router.get_handlers_from_route_info(&RouteInfo::new("/api/users/7".to_string(), "DELETE".to_string()));
    assert!(none.is_none());
    let none = router.get_handlers_from_route_info(&RouteInfo::new("/api/users/7/x".to_string(), "GET".to_string()));
    assert!(none.is_none());
}

#[test]
fn default_router_static_routes_match_the_path_text_exactly() {
    let config = config_with(vec![("/api/users", vec![("GET", vec![h("list")])])], vec![]);
    let router: DefaultRouter<(), ()> = DefaultRouter::new(config, ());
    let slash = router.get_handlers_from_route_info(&RouteInfo::new("/api/users/".to_string(), "GET".to_string()));
    assert!(slash.is_none());
}

fn router_for_runs() -> DefaultRouter<&'static str, ()> {
    let config = config_with(vec![], vec![("@auth", vec!["a1", "a2"]), ("@empty", vec![]), ("@broken", vec!["ghost"])]);
    let mut router = DefaultRouter::new(config, ());
    for name in ["a1", "a2", "h1", "h2"] {
        router.add_handler(HandlerId(name.to_string()), name);
    }
    router
}

fn ok() -> HandlerReport {
    HandlerReport::Status { completed: false, error: false }
}

fn expect_execute(step: &RunStep, name: &str) {
    match step {
        RunStep::Execute(id) => assert_eq!(id.0, name),
        other => panic!("expected {} to run, got {:?}", name, other),
    }
}

#[test]
fn run_goes_through_handlers_and_chains_in_order() {
    let router = router_for_runs();
    let execs = vec![h("h1"), c("@auth"), c("@empty"), h("h2")];
    let (run, step) = router.start_run(&execs);
    expect_execute(&step, "h1");
    let (run, step) = router.resume_run(run, ok());
    expect_execute(&step, "a1");
    let (run, step) = router.resume_run(run, ok());
    expect_execute(&step, "a2");
    let (run, step) = router.resume_run(run, ok());
    expect_execute(&step, "h2");
    let (_, step) = router.resume_run(run, ok());
    assert!(matches!(step, RunStep::Finished(Ok(()))));
}

#[test]
fn completing_inside_a_chain_ends_only_the_chain() {
    let router = router_for_runs();
    let execs = vec![c("@auth"), h("h2")];
    let (run, step) = router.start_run(&execs);
    expect_execute(&step, "a1");
    let (run, step) = router.resume_run(run, HandlerReport::Status { completed: true, error: false });
    expect_execute(&step, "h2");
    let (_, step) = router.resume_run(run, HandlerReport::Status { completed: true, error: true });
    assert!(matches!(step, RunStep::Finished(Ok(()))));
}

#[test]
fn run_failures() {
    let router = router_for_runs();
    let (_, step) = router.start_run(&vec![h("nobody")]);
    assert!(matches!(step, RunStep::Finished(Err(RunFailure::HandlerNotFound(ref id))) if id.0 == "nobody"));
    let (_, step) = router.start_run(&vec![c("@missing")]);
    assert!(matches!(step, RunStep::Finished(Err(RunFailure::ChainNotFound(ref id))) if id.0 == "@missing"));
    let (_, step) = router.start_run(&vec![c("@broken")]);
    assert!(matches!(step, RunStep::Finished(Err(RunFailure::HandlerNotFound(ref id))) if id.0 == "ghost"));
    let (run, _) = router.start_run(&vec![c("@auth")]);
    let (_, step) = router.resume_run(run, HandlerReport::Status { completed: false, error: true });
    assert!(matches!(step, RunStep::Finished(Err(RunFailure::ErrorStatus(ref h, Some(ref c)))) if h.0 == "a1" && c.0 == "@auth"));
    let (run, _) = router.start_run(&vec![h("h1")]);
    let (_, step) = router.resume_run(run, HandlerReport::Failed("boom".to_string()));
    assert!(matches!(step, RunStep::Finished(Err(RunFailure::ExecutionFailed(ref m))) if m == "boom"));
    let (_, step) = router.start_run(&vec![]);
    assert!(matches!(step, RunStep::Finished(Ok(()))));
}

#[test]
fn test_invalid_handler_chain() {}

#[test]
fn test_valid_handler_chain() {
    type Handler = fn(&mut Option<String>, &mut Option<String>) -> HandleReport;
    fn idempotent(_: &mut Option<String>, _: &mut Option<String>) -> HandleReport {
        HandleReport::Status { completed: false, flagged: false }
    }
    fn modify_body(input: &mut Option<String>, _: &mut Option<String>) -> HandleReport {
        let body = input.as_mut().unwrap();
        *body = body.replace("Hello", "Goodbye");
        HandleReport::Status { completed: false, flagged: false }
    }
    fn complete(input: &mut Option<String>, output: &mut Option<String>) -> HandleReport {
        *output = input.take();
        HandleReport::Status { completed: true, flagged: true }
    }

    let mut executor: HandlerExecutor<Handler> = HandlerExecutor::new();
    executor.add_handler(1, idempotent);
    executor.add_handler(2, idempotent);
    executor.add_handler(3, complete);
    executor.add_handler(4, modify_body);

    let chain: Vec<u64> = vec![1, 2, 4, 3];
    let mut input = Some(String::from("Hello Handler!"));
    let mut output: Option<String> = None;
    let (mut run, mut step) = executor.start(&chain);
    let result = loop {
        match step {
            HandleStep::Execute(id) => {
                let handler = executor.handler(id).unwrap();
                let report = handler(&mut input, &mut output);
                let next = executor.after_report(&chain, run, report);
                run = next.0;
                step = next.1;
            },
            HandleStep::TakeOutput => {
                let taken = output.is_some();
                let next = executor.after_take_output(&chain, run, taken);
                run = next.0;
                step = next.1;
            },
            HandleStep::Finish => break Ok(output.take().unwrap()),
            HandleStep::Stop(reason) => break Err(reason),
        }
    };
    assert!(result.is_ok());
    assert_eq!("Goodbye Handler!", result.unwrap());
}

#[test]
fn executor_skips_unregistered_and_stops_when_nothing_completes() {
    let mut executor: HandlerExecutor<()> = HandlerExecutor::new();
    executor.add_handler(2, ());
    let chain = vec![1, 2, 3];
    let (run, step) = executor.start(&chain);
    assert_eq!(step, HandleStep::Execute(2));
    assert_eq!(run.position, 1);
    let (_, step) = executor.after_report(&chain, run, HandleReport::Status { completed: false, flagged: false });
    assert_eq!(step, HandleStep::Stop(Unfinished::ChainNotCompleted));
    let (_, step) = executor.after_report(&chain, run, HandleReport::Status { completed: false, flagged: true });
    assert_eq!(step, HandleStep::Stop(Unfinished::ErrorInChain));
    let (_, step) = executor.after_report(&chain, run, HandleReport::Failed);
    assert_eq!(step, HandleStep::Stop(Unfinished::HandlerFailed));
    let (_, step) = executor.after_take_output(&chain, run, false);
    assert_eq!(step, HandleStep::Stop(Unfinished::ChainNotCompleted));
}

#[test]
fn tree_router_finds_configured_paths() {
    let config = config_with(
        vec![
            ("/api/users", vec![("GET", vec![h("list")]), ("POST", vec![h("create")])]),
            ("/api/items", vec![("GET", vec![h("items")])]),
        ],
        vec![],
    );
    let router = Router::new(&config);
    assert_eq!(*router.get_handlers_from_path_and_method("/api/users", "GET").unwrap(), vec![h("list")]);
    assert_eq!(*router.get_handlers_from_path_and_method("/api/users", "POST").unwrap(), vec![h("create")]);
    assert_eq!(*router.get_handlers_from_path_and_method("/api/items", "GET").unwrap(), vec![h("items")]);
    assert!(router.get_handlers_from_path_and_method("/api/items", "POST").is_none());
    assert!(router.get_handlers_from_path_and_method("/api", "GET").is_none());
    assert!(router.get_handlers_from_path_and_method("api/users", "GET").is_none());
    assert!(router.get_handlers_from_path_and_method("/api/users/", "GET").is_none());
}

#[test]
fn tree_router_takes_the_first_matching_child() {
    let config = config_with(
        vec![
            ("/api/*", vec![("GET", vec![h("any")])]),
            ("/api/users", vec![("GET", vec![h("users")])]),
        ],
        vec![],
    );
    let router = Router::new(&config);
    assert_eq!(*router.get_handlers_from_path_and_method("/api/other", "GET").unwrap(), vec![h("any")]);
    assert_eq!(*router.get_handlers_from_path_and_method("/api/users", "GET").unwrap(), vec![h("any")]);
    assert!(router.get_handlers_from_path_and_method("/api/users/x", "GET").is_none());

    let config = config_with(
        vec![
            ("/api/users", vec![("GET", vec![h("users")])]),
            ("/api/*", vec![("GET", vec![h("any")])]),
        ],
        vec![],
    );
    let router = Router::new(&config);
    assert_eq!(*router.get_handlers_from_path_and_method("/api/users", "GET").unwrap(), vec![h("users")]);
    assert_eq!(*router.get_handlers_from_path_and_method("/api/other", "GET").unwrap(), vec![h("any")]);
}

#[test]
fn split_all_keeps_empty_pieces() {
    assert_eq!(split_all_exec("/a/b"), vec!["", "a", "b"]);
    assert_eq!(split_all_exec(""), vec![""]);
    assert_eq!(split_all_exec("a/"), vec!["a", ""]);
}
