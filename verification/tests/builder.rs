use idemio::router::builder::{MethodBuilder, RouteBuilder, ServiceBuilder, ServiceConfigCore, SingleServiceConfigBuilder};
use idemio::router::config::PathChain;

#[test]
fn test_single_service_multiple_methods_same_route() {
    let config = SingleServiceConfigBuilder::new()
        .handler("handler1")
        .handler("handler2")
        .route("/api/test")
        .get()
        .request_handler("handler1")
        .termination_handler("handler2")
        .end_method()
        .post()
        .request_handler("handler1")
        .termination_handler("handler2")
        .end_method()
        .end_route()
        .build();

    assert!(config.handlers.contains("handler1"));
    assert!(config.handlers.contains("handler2"));
}

#[test]
fn test_route_builder_chaining() {
    let config = SingleServiceConfigBuilder::new()
        .handlers(&["auth", "validate", "process", "respond"])
        .chain("request_chain", &["auth", "validate"])
        .chain("response_chain", &["respond"])
        .route("/api/users")
        .get()
        .request_chain("request_chain")
        .termination_handler("process")
        .response_chain("response_chain")
        .end_method()
        .post()
        .request_handlers(&["auth", "validate"])
        .termination_handler("process")
        .response_handler("respond")
        .end_method()
        .end_route()
        .build();

    assert_eq!(config.handlers.len(), 4);
    assert_eq!(config.chains.len(), 2);
}

#[test]
fn builder_registers_each_handler_once() {
    let config = SingleServiceConfigBuilder::new()
        .handler("a")
        .handler("a")
        .handlers(&["a", "b"])
        .build();
    assert_eq!(config.handlers.len(), 2);
    assert!(config.handlers.contains("a"));
    assert!(config.handlers.contains("b"));
    assert!(!config.handlers.contains("c"));
}

#[test]
fn builder_request_chain_expands_to_its_handlers() {
    let config = SingleServiceConfigBuilder::new()
        .handlers(&["auth", "validate", "process"])
        .chain("pre", &["auth", "validate"])
        .route("/x")
        .get()
        .request_chain("pre")
        .request_handler("process")
        .termination_handler("process")
        .end_method()
        .end_route()
        .build();
    let methods = config.paths.get("/x").unwrap();
    let chain = methods.get("GET").unwrap();
    let names: Vec<String> = chain.request_handlers.clone().unwrap();
    assert_eq!(names, vec!["auth".to_string(), "validate".to_string(), "process".to_string()]);
    assert_eq!(chain.termination_handler, "process");
    assert!(chain.response_handlers.is_none());
}

#[test]
fn builder_unknown_chain_adds_nothing() {
    let config = SingleServiceConfigBuilder::new()
        .route("/x")
        .get()
        .request_chain("missing")
        .termination_handler("t")
        .end_method()
        .end_route()
        .build();
    let methods = config.paths.get("/x").unwrap();
    let chain = methods.get("GET").unwrap();
    assert!(chain.request_handlers.is_none());
    assert_eq!(chain.termination_handler, "t");
}

#[test]
fn ensuring_a_route_twice_acts_once_and_keeps_its_methods() {
    let mut core = ServiceConfigCore::new();
    core.ensure_route_exists("/a");
    core.ensure_route_exists("/a");
    let config = core.build();
    assert_eq!(config.paths.len(), 1);
    assert_eq!(config.paths.get("/a").unwrap().len(), 0);

    let mut core = ServiceConfigCore::new();
    core.add_method("/b", "GET".to_string(), PathChain::new());
    core.ensure_route_exists("/b");
    let config = core.build();
    assert_eq!(config.paths.len(), 1);
    assert_eq!(config.paths.get("/b").unwrap().len(), 1);
}
