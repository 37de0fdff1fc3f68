use idemio::exchange::flow::{Exchange, ExchangeBuilder, StreamOrValue};
use idemio::exchange::stream::{CollectorError, ExchangeBuilderError, StringCollector, VecCollector};

/// A stream of items, each of which may have failed.
type Items<T> = Vec<Result<T, String>>;

/// Reads a stream to its end: its items, or the first error.
fn drain<T>(stream: &mut Items<T>) -> Result<Vec<T>, String> {
    let mut items = Vec::new();
    for item in stream.drain(..) {
        items.push(item?);
    }
    Ok(items)
}

type TextExchange = Exchange<String, String, (), Items<String>, Items<String>>;

/// Reads the input as a value, reading its stream with the collector given
/// with it where it is one.
fn read_input(exchange: &mut TextExchange) -> Result<String, String> {
    if let Some(collector) = exchange.start_input().map_err(|e| e.to_text())? {
        let drained = drain(exchange.input_stream_mut().unwrap());
        exchange.finish_input(drained, &*collector).map_err(|e| e.to_text())?;
    }
    Ok(exchange.input_value().unwrap().clone())
}

#[test]
fn test_unified_exchange_buffered() {
    let mut exchange: TextExchange = Exchange::new();

    exchange.set_input("test input".to_string());
    assert!(exchange.has_input());

    exchange.set_output("test output".to_string());
    assert!(exchange.has_output());

    let mut source = exchange.take_output_source().unwrap();
    assert!(source.start_collect().unwrap().is_none());
    let output = source.into_value().unwrap();
    assert_eq!(output, "test output");
    assert!(!exchange.has_output());
}

#[test]
fn test_unified_exchange_streaming_with_collector() {
    let mut exchange: TextExchange = Exchange::new();

    let input_stream = vec![Ok("chunk1".to_string()), Ok("chunk2".to_string())];
    exchange.set_input_stream_with_collector(input_stream, Box::new(StringCollector));

    assert!(exchange.has_input());

    let input = read_input(&mut exchange).unwrap();
    assert_eq!(input, "chunk1chunk2");
    // the collected value stays: a second read needs no stream
    assert!(exchange.start_input().unwrap().is_none());
    assert_eq!(exchange.input_value().unwrap(), "chunk1chunk2");
}

#[test]
fn test_unified_exchange_stream_proxy() {
    let mut exchange: TextExchange = Exchange::new();

    let input_stream = vec![Ok("chunk1".to_string()), Ok("chunk2".to_string())];
    exchange.set_input_stream(input_stream);

    let stream = exchange.take_input_stream().unwrap();

    assert_eq!(stream.len(), 2);
    assert_eq!(stream[0].as_ref().unwrap(), "chunk1");
    assert_eq!(stream[1].as_ref().unwrap(), "chunk2");
    assert!(!exchange.has_input());
}

#[test]
fn test_unified_exchange_callback_processing() {
    let mut exchange: TextExchange = Exchange::new();

    let mut input_stream = vec![Ok("chunk1".to_string()), Ok("chunk2".to_string())];
    let drained = drain(&mut input_stream);

    exchange
        .process_drained_input(drained, |chunks| {
            let mut combined = String::new();
            for chunk in chunks {
                combined.push_str(&chunk);
            }
            Ok(combined)
        })
        .unwrap();

    assert!(exchange.has_input());
    assert_eq!(exchange.input_value().unwrap(), "chunk1chunk2");
}

#[test]
fn test_unified_exchange_metadata() {
    let mut exchange: Exchange<(), (), String, (), ()> = Exchange::new();

    exchange.set_metadata("test metadata".to_string());
    let metadata = exchange.metadata().unwrap();
    assert_eq!(metadata, "test metadata");
}

#[test]
fn test_error_handling() {
    let mut exchange: TextExchange = Exchange::new();

    let input_stream = vec![Ok("chunk".to_string())];
    exchange.set_input_stream(input_stream);

    let result = read_input(&mut exchange);
    assert!(result.is_err());
    assert!(result.unwrap_err().contains("No collector provided"));
}

#[test]
fn flow_errors_name_the_exchange() {
    let id = 0x0123_4567_89ab_cdef_0011_2233_4455_6677u128;
    let prefix = "01234567-89ab-cdef-0011-223344556677";
    let mut exchange: TextExchange = Exchange::new_with_uuid(id);
    assert_eq!(exchange.uuid(), id);
    assert_eq!(
        exchange.metadata().unwrap_err().to_text(),
        format!("{} Failed to read metadata: Metadata has not been set", prefix)
    );
    assert_eq!(
        exchange.start_input().err().unwrap().to_text(),
        format!("{} Failed to read input: No input available", prefix)
    );
    assert_eq!(
        exchange.input_needs_collecting().unwrap_err().to_text(),
        format!("{} Failed to read input: No input available", prefix)
    );
    assert_eq!(
        exchange.take_input_source().err().unwrap().to_text(),
        format!("{} Failed to consume input: No input available to take", prefix)
    );
    assert_eq!(
        exchange.take_output_stream().err().unwrap().to_text(),
        format!("{} Failed to consume output: No output stream available to take", prefix)
    );
    exchange.set_output("done".to_string());
    assert_eq!(
        exchange.take_output_stream().err().unwrap().to_text(),
        format!("{} Exchange collector error: Invalid Stream Error: No stream to take", prefix)
    );
    assert!(!exchange.has_output());
}

#[test]
fn flow_stream_errors_are_reported_and_keep_the_stream() {
    let mut exchange: TextExchange = Exchange::new_with_uuid(1);
    exchange.set_input_stream_with_collector(vec![Ok("a".to_string()), Err("broken pipe".to_string())], Box::new(StringCollector));
    let err = read_input(&mut exchange).unwrap_err();
    assert_eq!(
        err,
        "00000000-0000-0000-0000-000000000001 Exchange collector error: Stream Collect Error: Could not collect stream: broken pipe"
    );
    assert!(exchange.has_input());
    assert!(exchange.input_value().is_none());
    // the collector was handed out: a second read has none
    assert!(read_input(&mut exchange).unwrap_err().contains("No collector provided for stream."));

    let drained: Result<Vec<String>, String> = Err("reset".to_string());
    let e = exchange.collect_drained_input(drained, &StringCollector).unwrap_err();
    assert_eq!(e.to_text(), "00000000-0000-0000-0000-000000000001 Failed to read input: Stream error: reset");
    exchange.collect_drained_input(Ok(vec!["x".to_string(), "y".to_string()]), &StringCollector).unwrap();
    assert_eq!(exchange.input_value().unwrap(), "xy");
}

#[test]
fn flow_output_with_a_collector_of_the_callers() {
    let mut exchange: Exchange<(), Vec<u8>, (), (), Items<Vec<u8>>> = Exchange::new();
    exchange.set_output_stream(vec![Ok(vec![1, 2]), Ok(vec![]), Ok(vec![3])]);
    assert_eq!(exchange.output_needs_collecting().unwrap(), true);
    let drained = drain(exchange.output_stream_mut().unwrap());
    exchange.finish_output(drained, &VecCollector::new()).unwrap();
    assert_eq!(exchange.output_needs_collecting().unwrap(), false);
    assert_eq!(exchange.output_value().unwrap(), &vec![1, 2, 3]);
    let source = exchange.take_output_source().ok().unwrap();
    assert_eq!(source.into_value().unwrap(), vec![1, 2, 3]);
}

#[test]
fn stream_or_value_steps() {
    let mut v: StreamOrValue<String, Items<String>> = StreamOrValue::from_value("v".to_string());
    assert!(!v.is_stream());
    assert!(v.start_collect().unwrap().is_none());
    assert!(v.stream_mut().is_none());
    assert_eq!(v.value().unwrap(), "v");
    match v.take_stream() {
        Err(CollectorError::InvalidStreamError(m)) => assert_eq!(m, "No stream to take"),
        _ => panic!("a value has no stream"),
    }
    let mut s: StreamOrValue<String, Items<String>> = StreamOrValue::from_stream(vec![Ok("p".to_string())]);
    assert!(s.is_stream());
    assert!(s.value().is_none());
    match s.start_collect() {
        Err(CollectorError::InvalidStreamError(m)) => assert_eq!(m, "No collector provided for stream."),
        _ => panic!("no collector was given"),
    }
    let drained = drain(s.stream_mut().unwrap());
    s.finish_collect(drained, &StringCollector).unwrap();
    assert_eq!(s.into_value().unwrap(), "p");
}

#[test]
fn builder_builds_what_it_was_given() {
    let missing = ExchangeBuilder::<String, String, (), Items<String>>::new().with_buffered_output().build::<Items<String>>();
    match missing {
        Err(ExchangeBuilderError::InvalidInputConfig(m)) => assert_eq!(m, "No input type defined for exchange."),
        _ => panic!("no input was given"),
    }
    let e = ExchangeBuilder::<String, String, u8, Items<String>>::new()
        .with_uuid(9)
        .with_metadata(3)
        .with_buffered_input("in".to_string())
        .with_streaming_output()
        .build::<Items<String>>()
        .ok()
        .unwrap();
    assert_eq!(e.uuid(), 9);
    assert_eq!(*e.metadata().unwrap(), 3);
    assert_eq!(e.input_value().unwrap(), "in");
    assert!(!e.has_output());

    let mut s = ExchangeBuilder::<String, String, (), Items<String>>::streaming_with_collectors::<Items<String>>(
        vec![Ok("a".to_string()), Ok("b".to_string())],
        Box::new(StringCollector),
    )
    .ok()
    .unwrap();
    assert_eq!(read_input(&mut s).unwrap(), "ab");
    let b = ExchangeBuilder::<String, String, (), Items<String>>::buffered::<Items<String>>("x".to_string()).ok().unwrap();
    assert_eq!(b.input_value().unwrap(), "x");
    let mut p = ExchangeBuilder::<String, String, (), Items<String>>::streaming::<Items<String>>(vec![Ok("q".to_string())])
        .ok()
        .unwrap();
    assert_eq!(p.take_input_stream().ok().unwrap().len(), 1);
}
