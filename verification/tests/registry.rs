use idemio::handler::{HandlerId, HandlerRegistry, HandlerRegistryError};

#[derive(Clone, Debug, PartialEq)]
enum TestHandler {
    Named(String),
    Another,
}

impl TestHandler {
    fn new(name: &str) -> Self {
        TestHandler::Named(name.to_string())
    }
}

type Registry = HandlerRegistry<TestHandler, (), ()>;

#[test]
fn test_register_multiple_handlers_success() {
    let mut registry = Registry::new();

    let handler1_id = HandlerId::new("handler_1");
    let handler1 = TestHandler::new("handler_1");

    let handler2_id = HandlerId::new("handler_2");
    let handler2 = TestHandler::Another;

    let result1 = registry.register_request_handler(handler1_id.clone(), handler1);
    let result2 = registry.register_request_handler(handler2_id.clone(), handler2);

    assert!(result1.is_ok());
    assert!(result2.is_ok());
    assert_eq!(registry.request_handler_count(), 2);
    assert!(registry.has_request_handler(&handler1_id));
    assert!(registry.has_request_handler(&handler2_id));
}

#[test]
fn test_register_handler_with_conflicting_id() {
    let mut registry = Registry::new();
    let handler_id = HandlerId::new("duplicate_handler");

    let handler1 = TestHandler::new("first_handler");
    let handler2 = TestHandler::new("second_handler");

    let result1 = registry.register_request_handler(handler_id.clone(), handler1);
    assert!(result1.is_ok());

    let result2 = registry.register_request_handler(handler_id.clone(), handler2);
    assert!(result2.is_err());

    assert_eq!(registry.request_handler_count(), 1);
}

#[test]
fn test_find_nonexistent_handler() {
    let registry = Registry::new();
    let nonexistent_id = HandlerId::new("nonexistent_handler");
    let result: Result<TestHandler, _> = registry.get_request_handler(&nonexistent_id);
    assert!(result.is_err());
}

#[test]
fn test_find_handler_after_multiple_registrations() {
    let mut registry = Registry::new();

    let handler1_id = HandlerId::new("handler_alpha");
    let handler1 = TestHandler::new("handler_alpha");

    let handler2_id = HandlerId::new("handler_beta");
    let handler2 = TestHandler::new("handler_beta");

    let handler3_id = HandlerId::new("handler_gamma");
    let handler3 = TestHandler::Another;

    registry.register_request_handler(handler1_id.clone(), handler1).unwrap();
    registry.register_request_handler(handler2_id.clone(), handler2).unwrap();
    registry.register_request_handler(handler3_id.clone(), handler3).unwrap();

    let result = registry.get_request_handler(&handler2_id);
    assert!(result.is_ok());

    let result = registry.get_request_handler(&handler3_id);
    assert!(result.is_ok());

    let result = registry.get_request_handler(&handler1_id);
    assert!(result.is_ok());
}

#[test]
fn registry_gives_back_what_was_registered() {
    let mut registry = Registry::new();
    let id = HandlerId::new("alpha");
    registry.register_request_handler(id, TestHandler::new("alpha")).unwrap();
    assert_eq!(registry.get_request_handler(&id).unwrap(), TestHandler::new("alpha"));
}

#[test]
fn registry_conflict_reports_the_id() {
    let mut registry = Registry::new();
    let id = HandlerId::new("dup");
    registry.register_request_handler(id, TestHandler::new("first")).unwrap();
    match registry.register_request_handler(id, TestHandler::new("second")) {
        Err(HandlerRegistryError::ConflictingHandlerId { handler_id }) => assert_eq!(handler_id, id),
        _ => panic!("expected a conflicting id"),
    }
    assert_eq!(registry.get_request_handler(&id).unwrap(), TestHandler::new("first"));
}

#[test]
fn registry_missing_handler_reports_the_id() {
    let registry = Registry::new();
    let id = HandlerId::new("nope");
    match registry.get_termination_handler(&id) {
        Err(HandlerRegistryError::MissingHandler { handler_id }) => assert_eq!(handler_id, id),
        _ => panic!("expected a missing handler"),
    }
}

#[test]
fn registry_ids_are_shared_across_kinds() {
    let mut registry = Registry::new();
    let id = HandlerId::new("shared");
    registry.register_termination_handler(id, ()).unwrap();
    assert!(registry.register_request_handler(id, TestHandler::Another).is_err());
    assert!(registry.register_response_handler(id, ()).is_err());
}

#[test]
fn handler_id_is_the_fnv_hash_of_its_name() {
    assert_eq!(HandlerId::new("x").hash_value(), 644517256638675560u64);
    assert_eq!(HandlerId::new("handler1").hash_value(), 7448198935736671675u64);
    let from: HandlerId = "handler1".into();
    assert_eq!(from, HandlerId::new("handler1"));
    assert_ne!(HandlerId::new("a"), HandlerId::new("b"));
}

#[test]
fn registry_errors_name_the_id_in_decimal() {
    let id = HandlerId::new("handler1");
    assert_eq!(id.to_text(), "7448198935736671675");
    assert_eq!(id.to_text(), id.hash_value().to_string());
    assert_eq!(
        HandlerRegistryError::MissingHandler { handler_id: id }.to_text(),
        "Handler with id '7448198935736671675' not found."
    );
    assert_eq!(
        HandlerRegistryError::ConflictingHandlerId { handler_id: HandlerId::new("") }.to_text(),
        format!("Handler with id '{}' already exists.", 0xaf64724c8602eb6eu64)
    );
}
