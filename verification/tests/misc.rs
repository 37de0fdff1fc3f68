use std::any::TypeId;
use std::sync::Arc;

use idemio::cache::{CacheError, FileCache, FileCacheError};
use idemio::catalog::{Handler1, Handler2, HandlerRegistry as Catalog};
use idemio::config::{Config, ConfigProvider, ConfigProviderError, DefaultConfigProvider, ProgrammaticConfigProvider};
use idemio::dispatch::exchange::{ExchangeData, ExchangeError as DataError};
use idemio::exchange::stream::{
    CollectorError, ExchangeBuilderError, ExchangeError as StreamError, StreamCollector, StringCollector, VecCollector,
};
use idemio::exchange::{AttachmentKey, ExchangeError};
use idemio::handler::config::{ChainId, Executable};
use idemio::handler::derive::{check_config_field, check_derive_target};
use idemio::handler::{HandlerId, MiddlewareResponse};
use idemio::handler_config::{HandlerConfig, ProviderType};
use idemio::logger::{Component, LogEntry, LogLevel};
use idemio::router::factory::{ExchangeFactoryError, RouteInfo};
use idemio::router::path::http::{HeaderKey, HttpPathMethodKey};
use idemio::router::exchange::{Exchange as RoutedExchange, ExchangeError as RoutedError};
use idemio::router::RouterError;
use idemio::status::{ExchangeState, HandlerStatus};

#[test]
fn handler_status_builders() {
    let s = HandlerStatus::new(ExchangeState::ERROR).message("bad").details("more");
    assert_eq!(s.state(), ExchangeState::ERROR);
    assert_eq!(s.message_text(), Some("bad".to_string()));
    assert_eq!(s.details_text(), Some("more".to_string()));
    let plain = HandlerStatus::new(ExchangeState::LIVE);
    assert_eq!(plain.message_text(), None);
    assert_eq!(plain.details_text(), None);
}

#[test]
fn exchange_state_texts() {
    assert_eq!(ExchangeState::LIVE.to_text(), "LIVE");
    assert_eq!(ExchangeState::ERROR.to_text(), "ERROR");
}

#[test]
fn middleware_response_defaults_to_continue() {
    assert_eq!(MiddlewareResponse::default(), MiddlewareResponse::Continue);
}

struct Failing;

impl ConfigProvider<u32> for Failing {
    fn load(&self) -> Result<u32, ConfigProviderError> {
        Err(ConfigProviderError::load_error("nope"))
    }
}

#[test]
fn config_loads_from_providers() {
    let c: Config<u32> = Config::new(DefaultConfigProvider).unwrap();
    assert_eq!(*c.get(), 0);
    let mut p = Config::new(ProgrammaticConfigProvider { config: 7u32 }).unwrap();
    assert_eq!(*p.get(), 7);
    *p.get_mut() = 9;
    assert_eq!(*p.get(), 9);
    assert!(Config::new(Failing).is_err());
    assert_eq!(
        ConfigProviderError::load_error("missing").to_text(),
        "Could not load config file. missing"
    );
}

#[test]
fn handler_config_defaults_and_builder() {
    let d: HandlerConfig<u8> = HandlerConfig::default();
    assert_eq!(d.id(), "unknown");
    assert!(d.enabled());
    assert_eq!(d.timeout(), Some(30000));
    assert_eq!(d.retry_count(), None);
    assert_eq!(d.retry_delay(), None);

    let mut b = HandlerConfig::<u8>::builder();
    b.id("h".to_string()).enabled(false).timeout(None).retry_count(Some(3)).retry_delay(Some(5));
    let built = b.build();
    assert_eq!(built.id(), "h");
    assert!(!built.enabled());
    assert_eq!(built.timeout(), None);
    assert_eq!(built.retry_count(), Some(3));
    assert_eq!(built.retry_delay(), Some(5));

    let mut n = HandlerConfig::new("n".to_string(), idemio::handler_config::Config::<u8>::default());
    n.set_timeout(Some(1));
    n.set_enabled(false);
    assert_eq!(n.id(), "n");
    assert_eq!(n.timeout(), Some(1));
    assert!(!n.enabled());
    assert_eq!(ProviderType::File, ProviderType::File);
}

#[test]
fn catalog_finds_handlers_by_name() {
    assert_eq!(Handler1::handler_id(), "Handler1");
    assert_eq!(Handler2::handler_id(), "Handler2");
    let mut catalog: Catalog<u8> = Catalog::new();
    catalog.register_handler(Handler1::handler_id().to_string(), 1);
    catalog.register_handler(Handler2::handler_id().to_string(), 2);
    assert_eq!(catalog.get_handler("Handler1"), Some(&1));
    assert_eq!(catalog.get_handler("Handler2"), Some(&2));
    assert_eq!(catalog.get_handler("Handler3"), None);
    catalog.register_handler("Handler1".to_string(), 5);
    assert_eq!(catalog.get_handler("Handler1"), Some(&5));
}

#[test]
fn file_cache_behaviour() {
    let mut cache = FileCache::new();
    assert_eq!(cache.cache_id(), "FileCache");
    assert_eq!(cache.get("a").unwrap_err().to_text(), "Key not found");
    assert!(cache.init("a", "contents".to_string()).is_ok());
    assert_eq!(*cache.get("a").unwrap(), "contents");
    assert_eq!(cache.init("a", "other".to_string()).unwrap_err().to_text(), "Key already exists");
    let first = cache.get_or_resolve("b", || Ok("resolved".to_string())).unwrap();
    let second = cache.get_or_resolve("b", || Ok("never".to_string())).unwrap();
    assert!(Arc::ptr_eq(&first, &second));
    assert_eq!(*second, "resolved");
    let failed = cache.get_or_resolve("c", || Err(FileCacheError::handle("io")));
    assert_eq!(failed.unwrap_err().to_text(), "io");
    assert!(cache.get("c").is_err());
}

#[test]
fn collectors_join_in_order() {
    let s = StringCollector.collect(vec!["chunk1".to_string(), "chunk2".to_string()]).unwrap();
    assert_eq!(s, "chunk1chunk2");
    assert_eq!(StringCollector.collect(vec![]).unwrap(), "");
    let v = VecCollector::new().collect(vec![vec![1, 2], vec![], vec![3]]).unwrap();
    assert_eq!(v, vec![1, 2, 3]);
    assert_eq!(CollectorError::invalid_stream_error("x").to_text(), "Invalid Stream Error: x");
    assert_eq!(CollectorError::stream_collect_error("y").to_text(), "Stream Collect Error: y");
    assert_eq!(ExchangeBuilderError::invalid_input_config("i").to_text(), "Invalid input configuration: i");
    assert_eq!(ExchangeBuilderError::invalid_output_config("o").to_text(), "Invalid output configuration: o");
}

const ID: u128 = 0xa1a2a3a4b1b2c1c2d1d2d3d4d5d6d7d8;

#[test]
fn exchange_error_texts_name_the_exchange() {
    assert_eq!(
        ExchangeError::exchange_completed(ID).to_text(),
        "Exchange 'a1a2a3a4-b1b2-c1c2-d1d2-d3d4d5d6d7d8' has already been completed"
    );
    assert_eq!(
        ExchangeError::read_error(ID, "gone").to_text(),
        "Read error occurred for exchange 'a1a2a3a4-b1b2-c1c2-d1d2-d3d4d5d6d7d8'. gone"
    );
    assert_eq!(
        StreamError::input_read_error(ID, "m").to_text(),
        "a1a2a3a4-b1b2-c1c2-d1d2-d3d4d5d6d7d8 Failed to read input: m"
    );
    assert_eq!(
        StreamError::exchange_collector_error(0, CollectorError::stream_collect_error("s")).to_text(),
        "00000000-0000-0000-0000-000000000000 Exchange collector error: Stream Collect Error: s"
    );
}

#[test]
fn exchange_data_take_request_once() {
    let mut exchange: ExchangeData<String, (), ()> = ExchangeData::new();

    let invalid_consume = exchange.take_request();
    assert!(invalid_consume.is_err());

    exchange.save_input(String::from("hello"));
    let request = exchange.take_request().unwrap();
    assert_eq!(request, "hello");

    let invalid_consume = exchange.take_request();
    assert!(invalid_consume.is_err());
}

#[test]
fn exchange_data_reads_back_what_was_saved() {
    let mut exchange: ExchangeData<String, u8, &str> = ExchangeData::new();
    assert_eq!(exchange.input().unwrap_err().to_text(), "InputReadError: No input available");
    assert_eq!(exchange.output().unwrap_err().to_text(), "OutputReadError: No output available");
    exchange.add_metadata("meta");
    assert_eq!(exchange.metadata(), Some(&"meta"));
    exchange.save_input("in".to_string());
    exchange.input_mut().unwrap().push('!');
    assert_eq!(exchange.input().unwrap(), "in!");
    exchange.save_output(3);
    assert_eq!(*exchange.output().unwrap(), 3);
    assert_eq!(exchange.take_output().unwrap(), 3);
    match exchange.take_output() {
        Err(DataError::OutputCallbackError(m)) => assert_eq!(m, "Output callback failed"),
        _ => panic!("expected a callback error"),
    }
}

#[test]
fn attachment_keys() {
    let a = AttachmentKey::new("k", TypeId::of::<u64>());
    let b = AttachmentKey::new("k", TypeId::of::<u64>());
    let c = AttachmentKey::new("k", TypeId::of::<String>());
    let d = AttachmentKey::new("j", TypeId::of::<u64>());
    assert_eq!(a, b);
    assert_ne!(a, c);
    assert_ne!(a, d);
    assert_eq!(a.key_hash(), HandlerId::new("k").hash_value());
}

#[test]
fn chain_ids_and_executables() {
    assert_eq!(Executable::from_str("@c"), Executable::Chain(ChainId::new("@c")));
    assert_eq!(Executable::from_str("h"), Executable::Handler(HandlerId::new("h")));
    assert_ne!(ChainId::new("a"), ChainId::new("b"));
}

#[test]
fn log_entries_keep_their_context() {
    let e = LogEntry::new(LogLevel::INFO, 5u8, Some("main"), "hello", Component::Router, 9, Some(("f.rs", 3, 4)));
    assert_eq!(e.level, LogLevel::INFO);
    assert_eq!(e.code, 5);
    assert_eq!(e.file, Some("f.rs"));
    assert_eq!(e.line, Some(3));
    assert_eq!(e.column, Some(4));
    assert_eq!(e.exchange_id, 9);
    assert_eq!(e.message, "hello");
    assert!(!e.timestamp.is_empty());
    let n = LogEntry::new(LogLevel::WARN, (), None, "x", Component::Cache, 1, None);
    assert_eq!(n.file, None);
    assert_eq!(n.line, None);
}

#[test]
fn router_error_texts() {
    assert_eq!(
        RouterError::missing_route("a", "b").to_text(),
        "Matching route for key (a -- b) was not found."
    );
    assert_eq!(RouterError::MissingResponseError.to_text(), "No handler configured to produce a response.");
    assert_eq!(ExchangeFactoryError::missing_route_info("m").to_text(), "m");
    assert_eq!(ExchangeFactoryError::invalid_exchange("i").to_text(), "i");
}

#[test]
fn keys_keep_their_parts() {
    let info = RouteInfo::new("/p", "GET");
    assert_eq!(info.path, Some("/p"));
    assert_eq!(info.method, Some("GET"));
    assert_eq!(HeaderKey::new("x-id").header, "x-id");
    let k = HttpPathMethodKey::new("GET", "/p").with_path("/q");
    assert_eq!(k.method, "GET");
    assert_eq!(k.path, "/q");
}

#[test]
fn keys_from_pairs() {
    let k: HttpPathMethodKey = ("/p", "GET").into();
    assert_eq!(k.path, "/p");
    assert_eq!(k.method, "GET");
    let r: idemio::router::route::RouteKey = ("/q", "POST").into();
    assert_eq!(r.path, Some("/q"));
    assert_eq!(r.method, Some("POST"));
}

#[test]
fn test_consume() {
    let mut exchange: RoutedExchange<String, (), ()> = RoutedExchange::new();

    // consume before adding data
    let invalid_consume = exchange.take_input();
    assert!(invalid_consume.is_err());

    // consume after adding data
    exchange.save_input(String::from("hello"));
    let request = exchange.take_input().unwrap();
    assert_eq!(request, "hello");

    // consume again
    let invalid_consume = exchange.take_input();
    assert!(invalid_consume.is_err());
}

#[test]
fn routed_exchange_reads_back_and_names_itself_in_errors() {
    let mut exchange: RoutedExchange<String, u32, u8> = RoutedExchange::new();
    let id = uuid::Uuid::from_u128(exchange.uuid()).to_string();
    assert_eq!(
        exchange.input().unwrap_err().to_text(),
        format!("{} Failed to read input: Exchange does not contain any input data to read.", id)
    );
    assert_eq!(
        exchange.output_mut().unwrap_err().to_text(),
        format!("{} Failed to read output: Exchange does not contain any output data to modify.", id)
    );
    assert_eq!(
        exchange.take_output().unwrap_err().to_text(),
        format!("{} Failed to invoke output callback: Exchange does not contain an output to perform callbacks on", id)
    );
    exchange.add_metadata(7);
    exchange.save_input("in".to_string());
    exchange.input_mut().unwrap().push('!');
    assert_eq!(exchange.input().unwrap(), "in!");
    exchange.save_output(41);
    *exchange.output_mut().unwrap() += 1;
    assert_eq!(*exchange.output().unwrap(), 42);
    assert_eq!(exchange.take_output().unwrap(), 42);
    assert!(exchange.output().is_err());
    assert_eq!(exchange.take_input().unwrap(), "in!");
}

#[test]
fn routed_exchange_error_texts() {
    let id = 0x0123_4567_89ab_cdef_0011_2233_4455_6677u128;
    assert_eq!(
        RoutedError::input_take_error(id, "gone").to_text(),
        "01234567-89ab-cdef-0011-223344556677 Failed to consume input: gone"
    );
    assert_eq!(
        RoutedError::output_take_error(id, "gone").to_text(),
        "01234567-89ab-cdef-0011-223344556677 Failed to consume output: gone"
    );
    assert_eq!(
        RoutedError::input_callback_error(id, "x").to_text(),
        "01234567-89ab-cdef-0011-223344556677 Failed to invoke input callback: x"
    );
    assert_eq!(
        RoutedError::output_read_error(id, "y").to_text(),
        "01234567-89ab-cdef-0011-223344556677 Failed to read output: y"
    );
    assert_ne!(RoutedExchange::<(), (), ()>::new().uuid(), RoutedExchange::<(), (), ()>::new().uuid());
}

#[test]
fn handler_ids_hash_by_fnv1a_over_utf8_and_terminator() {
    assert_eq!(HandlerId::new("").hash_value(), 0xaf64724c8602eb6e);
    assert_eq!(HandlerId::new("handler1").hash_value(), 0x675d51784506ddbb);
    assert_eq!(HandlerId::new("é").hash_value(), 0x5fec201c1dfca99a);
}

#[test]
fn programmatic_config_reads_back_and_writes_through() {
    let given = "settings".to_string();
    let mut cfg = Config::new(ProgrammaticConfigProvider { config: given.clone() }).unwrap();
    assert_eq!(cfg.get(), &given);
    *cfg.get_mut() = "changed".to_string();
    assert_eq!(cfg.get(), "changed");
}

#[test]
fn derive_targets_must_be_one_field_structs_holding_config() {
    assert_eq!(check_derive_target(true, 1), Ok(()));
    assert_eq!(
        check_derive_target(false, 1),
        Err("ConfigurableHandler can only be derived for structs.".to_string())
    );
    assert_eq!(
        check_derive_target(true, 0),
        Err("ConfigurableHandler can only be derived for structs with exactly one field.".to_string())
    );
    assert_eq!(
        check_derive_target(true, 2),
        Err("ConfigurableHandler can only be derived for structs with exactly one field.".to_string())
    );
    assert_eq!(check_config_field(true, Some("Config"), true), Ok(()));
    let refused = Err("The struct must contain a field with type Config<X>.".to_string());
    assert_eq!(check_config_field(false, Some("Config"), true), refused);
    assert_eq!(check_config_field(true, Some("Settings"), true), refused);
    assert_eq!(check_config_field(true, None, true), refused);
    assert_eq!(check_config_field(true, Some("Config"), false), refused);
}

/// Whether `s` is an RFC 3339 time at offset +00:00, with 0, 3, 6 or 9
/// fraction digits.
fn rfc3339_utc(s: &str) -> bool {
    let b = s.as_bytes();
    let Some(rest) = s.strip_suffix("+00:00") else { return false };
    let digits = |x: &[u8]| x.iter().all(|c| c.is_ascii_digit());
    let (main, frac) = match rest.find('.') {
        Some(i) => (&rest[..i], &rest[i + 1..]),
        None => (rest, ""),
    };
    if !(frac.is_empty() || [3, 6, 9].contains(&frac.len())) || !digits(frac.as_bytes()) {
        return false;
    }
    let m = main.as_bytes();
    let n = m.len();
    n >= 19
        && b[0] != b'-'
        && m[n - 9] == b'T'
        && digits(&m[n - 8..n - 6])
        && m[n - 6] == b':'
        && digits(&m[n - 5..n - 3])
        && m[n - 3] == b':'
        && digits(&m[n - 2..])
        && m[n - 15] == b'-'
        && digits(&m[n - 14..n - 12])
        && m[n - 12] == b'-'
        && digits(&m[n - 11..n - 9])
        && digits(&m[..n - 15])
}

#[test]
fn log_timestamps_are_rfc3339_utc() {
    let e = LogEntry::new(LogLevel::INFO, 0u8, None, "t", Component::Router, 0, None);
    assert!(rfc3339_utc(&e.timestamp), "{}", e.timestamp);
    assert!(rfc3339_utc("2024-01-02T03:04:05.123+00:00"));
    assert!(!rfc3339_utc("2024-01-02 03:04:05+00:00"));
}

#[test]
fn new_exchanges_carry_version_4_uuids() {
    let routed = RoutedExchange::<(), (), ()>::new().uuid();
    assert_eq!((routed >> 76) & 0xf, 4);
    assert_eq!((routed >> 62) & 0x3, 2);
    let streaming = idemio::exchange::flow::Exchange::<(), (), (), (), ()>::new().uuid();
    assert_eq!((streaming >> 76) & 0xf, 4);
    assert_eq!((streaming >> 62) & 0x3, 2);
}
