use idemio::handler::{HandlerId, HandlerRegistry};
use idemio::router::builder::{MethodBuilder, RouteBuilder, ServiceBuilder, SingleServiceConfigBuilder};
use idemio::router::config::RouterConfig;
use idemio::router::path::http::{split_path, HttpPathMethodMatcher, HttpPathSegment};
use idemio::router::path::{PathMatcherError, RouteKeyMatcher};
use idemio::router::route::RouteKey;

#[derive(Clone, Debug, PartialEq)]
struct DummyHandler(&'static str);

type Registry = HandlerRegistry<DummyHandler, DummyHandler, DummyHandler>;
type Matcher = HttpPathMethodMatcher<DummyHandler, DummyHandler, DummyHandler>;

fn registry_with(names: &[&'static str]) -> Registry {
    let mut registry = Registry::new();
    for name in names {
        registry.register_termination_handler((*name).into(), DummyHandler(name)).unwrap();
    }
    registry
}

fn single_route(path: &str) -> RouterConfig {
    SingleServiceConfigBuilder::new()
        .route(path)
        .get()
        .termination_handler("handler1")
        .end_method()
        .end_route()
        .build()
}

#[test]
fn test_lookup_static_path() {
    let registry = registry_with(&["handler1"]);
    let config = single_route("/api/users");
    let matcher = Matcher::new(&config, &registry).unwrap();
    let key = ("/api/users", "GET").into();
    let result = matcher.lookup(key);
    assert!(result.is_some());
}

#[test]
fn test_lookup_wildcard_path() {
    let registry = registry_with(&["handler1"]);
    let config = single_route("/api/v1/*");
    let matcher = Matcher::new(&config, &registry).unwrap();
    let key = ("/api/v1/users", "GET").into();
    let result = matcher.lookup(key);
    assert!(result.is_some());
}

#[test]
fn test_lookup_wildcard_with_multiple_segments() {
    let registry = registry_with(&["handler1"]);
    let config = single_route("/api/v1/*");
    let matcher = Matcher::new(&config, &registry).unwrap();
    let key = ("/api/v1/users/123/profile", "GET").into();
    let result = matcher.lookup(key);
    assert!(result.is_some());
}

#[test]
fn test_lookup_no_matching_path() {
    let registry = registry_with(&["handler1"]);
    let config = single_route("/api/users");
    let matcher = Matcher::new(&config, &registry).unwrap();
    let key = RouteKey::new("/api/invalid", "GET");
    let result = matcher.lookup(key);
    assert!(result.is_none());
}

#[test]
fn test_lookup_no_matching_method() {
    let registry = registry_with(&["handler1"]);
    let config = single_route("/api/users");
    let matcher = Matcher::new(&config, &registry).unwrap();
    let key = RouteKey::new("/api/users", "POST");
    let result = matcher.lookup(key);
    assert!(result.is_none());
}

#[test]
fn test_lookup_missing_path() {
    let registry = registry_with(&["handler1"]);
    let config = single_route("/api/users");
    let matcher = Matcher::new(&config, &registry).unwrap();
    let key = RouteKey::default().with_method("GET");
    let result = matcher.lookup(key);
    assert!(result.is_none());
}

#[test]
fn test_lookup_missing_method() {
    let registry = registry_with(&["handler1"]);
    let config = single_route("/api/users");
    let matcher = Matcher::new(&config, &registry).unwrap();
    let key = RouteKey::default().with_path("/api/users");
    let result = matcher.lookup(key);
    assert!(result.is_none());
}

#[test]
fn test_lookup_multiple_methods_same_path() {
    let registry = registry_with(&["handler1", "handler2"]);
    let config = SingleServiceConfigBuilder::new()
        .route("/api/users")
        .get()
        .termination_handler("handler1")
        .end_method()
        .post()
        .termination_handler("handler2")
        .end_method()
        .end_route()
        .build();
    let matcher = Matcher::new(&config, &registry).unwrap();

    let get_key = RouteKey::default().with_path("/api/users").with_method("GET");
    let get_result = matcher.lookup(get_key);
    assert!(get_result.is_some());

    let post_key = RouteKey::default().with_path("/api/users").with_method("POST");
    let post_result = matcher.lookup(post_key);
    assert!(post_result.is_some());

    let put_key = RouteKey::default().with_path("/api/users").with_method("PUT");
    let put_result = matcher.lookup(put_key);
    assert!(put_result.is_none());
}

#[test]
fn test_lookup_nested_static_paths() {
    let registry = registry_with(&["handler1", "handler2"]);
    let config = SingleServiceConfigBuilder::new()
        .route("/api/users")
        .get()
        .termination_handler("handler1")
        .end_method()
        .end_route()
        .route("/api/users/profile")
        .get()
        .termination_handler("handler2")
        .end_method()
        .end_route()
        .build();
    let matcher = Matcher::new(&config, &registry).unwrap();

    let key1 = RouteKey::default().with_path("/api/users").with_method("GET");
    let result1 = matcher.lookup(key1);
    assert!(result1.is_some());

    let key2 = RouteKey::default().with_path("/api/users/profile").with_method("GET");
    let result2 = matcher.lookup(key2);
    assert!(result2.is_some());
}

#[test]
fn test_lookup_wildcard_precedence() {
    let registry = registry_with(&["handler1", "handler2"]);
    let config = SingleServiceConfigBuilder::new()
        .route("/api/*")
        .get()
        .termination_handler("handler1")
        .end_method()
        .end_route()
        .route("/api/users/profile")
        .get()
        .termination_handler("handler2")
        .end_method()
        .end_route()
        .build();
    let matcher = Matcher::new(&config, &registry).unwrap();

    let key = RouteKey::default().with_path("/api/users/profile").with_method("GET");
    let result = matcher.lookup(key);
    assert!(result.is_some());

    let key2 = RouteKey::default().with_path("/api/other").with_method("GET");
    let result2 = matcher.lookup(key2);
    assert!(result2.is_some());
}

#[test]
fn test_lookup_root_path() {
    let registry = registry_with(&["handler1"]);
    let config = single_route("/");
    let matcher = Matcher::new(&config, &registry).unwrap();
    let key = RouteKey::default().with_path("/").with_method("GET");
    let result = matcher.lookup(key);
    assert!(result.is_some());
}

#[test]
fn test_lookup_trailing_slash() {
    let registry = registry_with(&["handler1"]);
    let config = single_route("/api/users");
    let matcher = Matcher::new(&config, &registry).unwrap();
    let key = RouteKey::default().with_path("/api/users/").with_method("GET");
    let result = matcher.lookup(key);
    assert!(result.is_some());
}

#[test]
fn router_v2_test() {
    let mut registry = Registry::new();
    for name in ["test1", "test2", "test6", "test7", "test8", "test9"] {
        registry.register_request_handler(HandlerId::new(name), DummyHandler(name)).unwrap();
    }
    registry.register_termination_handler(HandlerId::new("test3"), DummyHandler("test3")).unwrap();
    registry.register_response_handler(HandlerId::new("test4"), DummyHandler("test4")).unwrap();

    let config = SingleServiceConfigBuilder::new()
        .chain("test_chain", &["test1", "test2", "test6", "test7", "test8", "test9"])
        .route("/api/v1/*")
        .post()
        .request_chain("test_chain")
        .termination_handler("test3")
        .response_handler("test4")
        .end_method()
        .get()
        .request_chain("test_chain")
        .termination_handler("test3")
        .response_handler("test4")
        .end_method()
        .end_route()
        .build();

    let table = Matcher::new(&config, &registry).unwrap();

    let result = table.lookup(("/api/v1/users", "GET").into());
    assert!(result.is_some());
    let handlers = result.unwrap();
    assert_eq!(handlers.request_handlers().len(), 6);

    let result = table.lookup(("/api/v1/someOtherEndpoint", "GET").into());
    assert!(result.is_some());
    let handlers = result.unwrap();
    assert_eq!(handlers.request_handlers().len(), 6);

    let result = table.lookup(("/invalid", "GET").into());
    assert!(result.is_none());

    let result = table.lookup(("/api/v1/users/somethingElse", "GET").into());
    assert!(result.is_some());
    let handlers = result.unwrap();
    assert_eq!(handlers.request_handlers().len(), 6);
}

#[test]
fn lookup_serves_the_configured_chain() {
    let registry = registry_with(&["handler1", "handler2"]);
    let config = SingleServiceConfigBuilder::new()
        .route("/api/users")
        .get()
        .termination_handler("handler1")
        .end_method()
        .post()
        .termination_handler("handler2")
        .end_method()
        .end_route()
        .build();
    let matcher = Matcher::new(&config, &registry).unwrap();
    let get = matcher.lookup(RouteKey::new("/api/users", "GET")).unwrap();
    assert_eq!(*get.termination_handler(), DummyHandler("handler1"));
    let post = matcher.lookup(RouteKey::new("/api/users", "POST")).unwrap();
    assert_eq!(*post.termination_handler(), DummyHandler("handler2"));
}

#[test]
fn exact_route_wins_over_wildcard() {
    let registry = registry_with(&["handler1", "handler2"]);
    let config = SingleServiceConfigBuilder::new()
        .route("/api/*")
        .get()
        .termination_handler("handler1")
        .end_method()
        .end_route()
        .route("/api/users/profile")
        .get()
        .termination_handler("handler2")
        .end_method()
        .end_route()
        .build();
    let matcher = Matcher::new(&config, &registry).unwrap();
    let exact = matcher.lookup(RouteKey::new("/api/users/profile", "GET")).unwrap();
    assert_eq!(*exact.termination_handler(), DummyHandler("handler2"));
    let wild = matcher.lookup(RouteKey::new("/api/users/other", "GET")).unwrap();
    assert_eq!(*wild.termination_handler(), DummyHandler("handler1"));
}

#[test]
fn deeper_wildcard_wins() {
    let registry = registry_with(&["handler1", "handler2"]);
    let config = SingleServiceConfigBuilder::new()
        .route("/api/*")
        .get()
        .termination_handler("handler1")
        .end_method()
        .end_route()
        .route("/api/v1/*")
        .get()
        .termination_handler("handler2")
        .end_method()
        .end_route()
        .build();
    let matcher = Matcher::new(&config, &registry).unwrap();
    let deep = matcher.lookup(RouteKey::new("/api/v1/x", "GET")).unwrap();
    assert_eq!(*deep.termination_handler(), DummyHandler("handler2"));
    let shallow = matcher.lookup(RouteKey::new("/api/v2/x", "GET")).unwrap();
    assert_eq!(*shallow.termination_handler(), DummyHandler("handler1"));
}

#[test]
fn missing_handler_refuses_the_configuration() {
    let registry = registry_with(&["handler1"]);
    let config = single_route("/api/users");
    assert!(Matcher::new(&config, &registry).is_ok());
    let other = SingleServiceConfigBuilder::new()
        .route("/api/users")
        .get()
        .termination_handler("absent")
        .end_method()
        .end_route()
        .build();
    match Matcher::new(&other, &registry) {
        Err(PathMatcherError::HandlerRegistryError { .. }) => {}
        _ => panic!("expected a registry error"),
    }
}

#[test]
fn split_path_drops_empty_segments() {
    assert_eq!(split_path("/api//users/"), vec!["api", "users"]);
    assert!(split_path("/").is_empty());
    assert_eq!(split_path("a"), vec!["a"]);
}

#[test]
fn path_segments_parse() {
    assert!(HttpPathSegment::from_str("*").is_any());
    let s = HttpPathSegment::from_str("users");
    assert!(!s.is_any());
    assert_eq!(s.to_text(), "users");
    assert_eq!(HttpPathSegment::from_str("*").to_text(), "*");
}

#[test]
fn static_route_serves_only_its_own_path() {
    let registry = registry_with(&["handler1"]);
    let config = single_route("/api/users");
    let matcher = Matcher::new(&config, &registry).unwrap();
    assert!(matcher.lookup(RouteKey::new("/api/users/123", "GET")).is_none());
    assert!(matcher.lookup(RouteKey::new("/api/users/123/profile", "GET")).is_none());
    assert!(matcher.lookup(RouteKey::new("/api", "GET")).is_none());
    assert!(matcher.lookup(RouteKey::new("/api/users", "GET")).is_some());
}

#[test]
fn longer_path_falls_back_to_a_wildcard_above() {
    let registry = registry_with(&["handler1", "handler2"]);
    let config = SingleServiceConfigBuilder::new()
        .route("/api/*")
        .get()
        .termination_handler("handler1")
        .end_method()
        .end_route()
        .route("/api/users")
        .get()
        .termination_handler("handler2")
        .end_method()
        .end_route()
        .build();
    let matcher = Matcher::new(&config, &registry).unwrap();
    let exact = matcher.lookup(RouteKey::new("/api/users", "GET")).unwrap();
    assert_eq!(exact.termination_handler(), &DummyHandler("handler2"));
    let longer = matcher.lookup(RouteKey::new("/api/users/123", "GET")).unwrap();
    assert_eq!(longer.termination_handler(), &DummyHandler("handler1"));
}

#[test]
fn path_matcher_error_texts() {
    let registry = registry_with(&["handler1"]);
    let other = SingleServiceConfigBuilder::new()
        .route("/api/users")
        .get()
        .termination_handler("absent")
        .end_method()
        .end_route()
        .build();
    let err = match Matcher::new(&other, &registry) {
        Err(e) => e,
        Ok(_) => panic!("expected a registry error"),
    };
    assert_eq!(err.to_text(), "Failed to register handler.");
    assert_eq!(
        err.source_text().unwrap(),
        format!("Handler with id '{}' not found.", HandlerId::new("absent").hash_value())
    );
    assert_eq!(
        PathMatcherError::InvalidConfiguration { message: "bad".to_string() }.to_text(),
        "Invalid path configuration. bad"
    );
    assert_eq!(PathMatcherError::InvalidPath { path: "/x".to_string() }.to_text(), "Path '/x' is invalid.");
    assert_eq!(PathMatcherError::InvalidMethod { method: "FOO".to_string() }.to_text(), "Method 'FOO' is invalid.");
    assert!(PathMatcherError::InvalidPath { path: "/x".to_string() }.source_text().is_none());
}
