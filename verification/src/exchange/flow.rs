//! Exchanges whose input and output are each a value or a stream not yet
//! read. Reading a stream waits on its items; that is left to the caller,
//! who hands the items (or the error the stream ended with) to the steps
//! here, which decide everything else.
use vstd::prelude::*;
use crate::exchange::stream::{CollectorError, ExchangeBuilderError, ExchangeError, OutputConfig, StreamCollector};
use crate::ext::{is_v4_uuid, new_uuid_v4};

verus! {

broadcast use vstd::string::group_string_axioms;

/// A value of an exchange: given as it is, still a stream (with the
/// collector that will join its items, where one was given), or collected
/// from a stream.
#[verifier::reject_recursive_types(T)]
pub enum StreamOrValue<T, S> {
    Value(T),
    Stream(S, Option<Box<dyn StreamCollector<T>>>),
    Collected(T),
}

/// The message of the error given when a stream is to be read as a value
/// and no collector was given with it.
pub open spec fn no_collector_message() -> Seq<char> {
    "No collector provided for stream."@
}

/// The message of the error given when a stream ended with an error, whose
/// text is `e`.
pub open spec fn stream_failure_message(e: Seq<char>) -> Seq<char> {
    "Could not collect stream: "@ + e
}

impl<T, S> StreamOrValue<T, S> {
    /// The value, once there is one.
    pub open spec fn value_spec(&self) -> Option<T> {
        match self {
            StreamOrValue::Value(v) => Some(*v),
            StreamOrValue::Collected(v) => Some(*v),
            StreamOrValue::Stream(..) => None,
        }
    }

    pub fn from_value(value: T) -> (r: Self)
        ensures
            r == StreamOrValue::<T, S>::Value(value),
    {
        StreamOrValue::Value(value)
    }

    pub fn from_stream(stream: S) -> (r: Self)
        ensures
            r == StreamOrValue::<T, S>::Stream(stream, None),
    {
        StreamOrValue::Stream(stream, None)
    }

    pub fn from_stream_with_collector(stream: S, collector: Box<dyn StreamCollector<T>>) -> (r: Self)
        ensures
            r == StreamOrValue::<T, S>::Stream(stream, Some(collector)),
    {
        StreamOrValue::Stream(stream, Some(collector))
    }

    /// The value, once there is one: given, or collected.
    pub fn value(&self) -> (r: Option<&T>)
        ensures
            match self.value_spec() {
                Some(v) => r == Some(&v),
                None => r is None,
            },
    {
        match self {
            StreamOrValue::Value(v) => Some(v),
            StreamOrValue::Collected(v) => Some(v),
            StreamOrValue::Stream(..) => None,
        }
    }

    /// Whether this is a stream not yet read.
    pub fn is_stream(&self) -> (r: bool)
        ensures
            r == (*self is Stream),
    {
        match self {
            StreamOrValue::Stream(..) => true,
            _ => false,
        }
    }

    /// The stream, while there is one, for its items to be read.
    pub fn stream_mut(&mut self) -> (r: Option<&mut S>)
        ensures
            match *old(self) {
                StreamOrValue::Stream(s, c) => r is Some && *r.unwrap() == s
                    && *final(self) == StreamOrValue::<T, S>::Stream(*final(r.unwrap()), c),
                _ => r is None && *final(self) == *old(self),
            },
    {
        match self {
            StreamOrValue::Stream(s, _) => Some(s),
            _ => None,
        }
    }

    /// The first step of reading the value with the collector given with
    /// the stream: a value is there already (`Ok(None)`); a stream hands
    /// its collector out (`Ok(Some(..))`), after which its items are to be
    /// read and passed to `finish_collect`; a stream without a collector
    /// cannot be read as a value.
    pub fn start_collect(&mut self) -> (r: Result<Option<Box<dyn StreamCollector<T>>>, CollectorError>)
        ensures
            match *old(self) {
                StreamOrValue::Stream(s, Some(c)) => r == Ok::<Option<Box<dyn StreamCollector<T>>>, CollectorError>(Some(c))
                    && *final(self) == StreamOrValue::<T, S>::Stream(s, None),
                StreamOrValue::Stream(s, None) => r matches Err(CollectorError::InvalidStreamError(m))
                    && m@ == no_collector_message() && *final(self) == *old(self),
                _ => r == Ok::<Option<Box<dyn StreamCollector<T>>>, CollectorError>(None) && *final(self) == *old(self),
            },
    {
        match self {
            StreamOrValue::Stream(_, c) => match c.take() {
                Some(collector) => Ok(Some(collector)),
                None => Err(CollectorError::invalid_stream_error("No collector provided for stream.")),
            },
            _ => Ok(None),
        }
    }

    /// The last step of reading a stream as a value: `drained` holds the
    /// items that the stream gave, or the text of the error it ended with;
    /// `collector` joins the items, and the stream is replaced by what it
    /// gave.
    pub fn finish_collect<K: StreamCollector<T> + ?Sized>(
        &mut self,
        drained: Result<Vec<T>, String>,
        collector: &K,
    ) -> (r: Result<(), CollectorError>)
        requires
            *old(self) is Stream,
        ensures
            match drained {
                Err(e) => r matches Err(CollectorError::StreamCollectError(m))
                    && m@ == stream_failure_message(e@) && *final(self) == *old(self),
                Ok(items) => match *final(self) {
                    StreamOrValue::Collected(v) => r is Ok && collector.collects(items@, Ok(v)),
                    _ => r matches Err(e) && collector.collects(items@, Err(e)) && *final(self) == *old(self),
                },
            },
    {
        match drained {
            Err(e) => {
                let mut m = "Could not collect stream: ".to_owned();
                m.push_str(e.as_str());
                Err(CollectorError::StreamCollectError(m))
            },
            Ok(items) => match collector.collect(items) {
                Ok(v) => {
                    *self = StreamOrValue::Collected(v);
                    Ok(())
                },
                Err(e) => Err(e),
            },
        }
    }

    /// The value, given or collected; nothing while it is a stream.
    pub fn into_value(self) -> (r: Option<T>)
        ensures
            r == self.value_spec(),
    {
        match self {
            StreamOrValue::Value(v) => Some(v),
            StreamOrValue::Collected(v) => Some(v),
            StreamOrValue::Stream(..) => None,
        }
    }

    /// The stream, to be passed on unread; a value has none.
    pub fn take_stream(self) -> (r: Result<S, CollectorError>)
        ensures
            match self {
                StreamOrValue::Stream(s, _) => r == Ok::<S, CollectorError>(s),
                _ => r matches Err(CollectorError::InvalidStreamError(m)) && m@ == "No stream to take"@,
            },
    {
        match self {
            StreamOrValue::Stream(s, _) => Ok(s),
            _ => Err(CollectorError::invalid_stream_error("No stream to take")),
        }
    }
}

/// An exchange whose input and output may each be a value or a stream:
/// its UUID, its metadata, and where its input and output stand.
#[verifier::reject_recursive_types(I)]
#[verifier::reject_recursive_types(O)]
pub struct Exchange<I, O, M, IS, OS> {
    uuid: u128,
    metadata: Option<M>,
    input: Option<StreamOrValue<I, IS>>,
    output: Option<StreamOrValue<O, OS>>,
}

/// `e` is the error of kind `kind` for the exchange `uuid`, with message `msg`.
pub open spec fn is_error(e: ExchangeError, kind: ErrorKind, uuid: u128, msg: Seq<char>) -> bool {
    match kind {
        ErrorKind::MetadataRead => e matches ExchangeError::MetadataReadError(u, m) && u == uuid && m@ == msg,
        ErrorKind::InputRead => e matches ExchangeError::InputReadError(u, m) && u == uuid && m@ == msg,
        ErrorKind::InputTake => e matches ExchangeError::InputTakeError(u, m) && u == uuid && m@ == msg,
        ErrorKind::OutputRead => e matches ExchangeError::OutputReadError(u, m) && u == uuid && m@ == msg,
        ErrorKind::OutputTake => e matches ExchangeError::OutputTakeError(u, m) && u == uuid && m@ == msg,
    }
}

/// The kinds of exchange errors that carry a message.
pub ghost enum ErrorKind {
    MetadataRead,
    InputRead,
    InputTake,
    OutputRead,
    OutputTake,
}

impl<I, O, M, IS, OS> Exchange<I, O, M, IS, OS> {
    pub closed spec fn uuid_spec(&self) -> u128 {
        self.uuid
    }

    pub closed spec fn metadata_spec(&self) -> Option<M> {
        self.metadata
    }

    pub closed spec fn input_spec(&self) -> Option<StreamOrValue<I, IS>> {
        self.input
    }

    pub closed spec fn output_spec(&self) -> Option<StreamOrValue<O, OS>> {
        self.output
    }

    /// An exchange with a fresh random version 4 UUID and nothing in it.
    pub fn new() -> (e: Self)
        ensures
            is_v4_uuid(e.uuid_spec()),
            e.metadata_spec() is None,
            e.input_spec() is None,
            e.output_spec() is None,
    {
        Exchange { uuid: new_uuid_v4(), metadata: None, input: None, output: None }
    }

    /// An exchange named `uuid` with nothing in it.
    pub fn new_with_uuid(uuid: u128) -> (e: Self)
        ensures
            e.uuid_spec() == uuid,
            e.metadata_spec() is None,
            e.input_spec() is None,
            e.output_spec() is None,
    {
        Exchange { uuid, metadata: None, input: None, output: None }
    }

    pub fn uuid(&self) -> (u: u128)
        ensures
            u == self.uuid_spec(),
    {
        self.uuid
    }

    /// Sets the metadata, replacing what was there.
    pub fn set_metadata(&mut self, metadata: M)
        ensures
            final(self).metadata_spec() == Some(metadata),
            final(self).uuid_spec() == old(self).uuid_spec(),
            final(self).input_spec() == old(self).input_spec(),
            final(self).output_spec() == old(self).output_spec(),
    {
        self.metadata = Some(metadata);
    }

    /// The metadata; an error while none has been set.
    pub fn metadata(&self) -> (r: Result<&M, ExchangeError>)
        ensures
            match self.metadata_spec() {
                Some(m) => r == Ok::<&M, ExchangeError>(&m),
                None => r matches Err(e) && is_error(e, ErrorKind::MetadataRead, self.uuid_spec(), "Metadata has not been set"@),
            },
    {
        match &self.metadata {
            None => Err(ExchangeError::metadata_read_error(self.uuid, "Metadata has not been set")),
            Some(metadata) => Ok(metadata),
        }
    }

    /// Whether there is an input, value or stream.
    pub fn has_input(&self) -> (r: bool)
        ensures
            r == self.input_spec() is Some,
    {
        self.input.is_some()
    }

    /// Whether there is an output, value or stream.
    pub fn has_output(&self) -> (r: bool)
        ensures
            r == self.output_spec() is Some,
    {
        self.output.is_some()
    }

    /// Sets the input to a value.
    pub fn set_input(&mut self, input: I)
        ensures
            final(self).input_spec() == Some(StreamOrValue::<I, IS>::Value(input)),
            final(self).uuid_spec() == old(self).uuid_spec(),
            final(self).metadata_spec() == old(self).metadata_spec(),
            final(self).output_spec() == old(self).output_spec(),
    {
        self.input = Some(StreamOrValue::Value(input));
    }

    /// Sets the input to a value, as `set_input` does.
    pub fn save_input(&mut self, input: I)
        ensures
            final(self).input_spec() == Some(StreamOrValue::<I, IS>::Value(input)),
            final(self).uuid_spec() == old(self).uuid_spec(),
            final(self).metadata_spec() == old(self).metadata_spec(),
            final(self).output_spec() == old(self).output_spec(),
    {
        self.set_input(input);
    }

    /// Sets the input to a stream without a collector.
    pub fn set_input_stream(&mut self, stream: IS)
        ensures
            final(self).input_spec() == Some(StreamOrValue::<I, IS>::Stream(stream, None)),
            final(self).uuid_spec() == old(self).uuid_spec(),
            final(self).metadata_spec() == old(self).metadata_spec(),
            final(self).output_spec() == old(self).output_spec(),
    {
        self.input = Some(StreamOrValue::from_stream(stream));
    }

    /// Sets the input to a stream, with the collector that joins its items.
    pub fn set_input_stream_with_collector(&mut self, stream: IS, collector: Box<dyn StreamCollector<I>>)
        ensures
            final(self).input_spec() == Some(StreamOrValue::<I, IS>::Stream(stream, Some(collector))),
            final(self).uuid_spec() == old(self).uuid_spec(),
            final(self).metadata_spec() == old(self).metadata_spec(),
            final(self).output_spec() == old(self).output_spec(),
    {
        self.input = Some(StreamOrValue::Stream(stream, Some(collector)));
    }

    /// Sets the output to a value.
    pub fn set_output(&mut self, output: O)
        ensures
            final(self).output_spec() == Some(StreamOrValue::<O, OS>::Value(output)),
            final(self).uuid_spec() == old(self).uuid_spec(),
            final(self).metadata_spec() == old(self).metadata_spec(),
            final(self).input_spec() == old(self).input_spec(),
    {
        self.output = Some(StreamOrValue::Value(output));
    }

    /// Sets the output to a stream without a collector.
    pub fn set_output_stream(&mut self, stream: OS)
        ensures
            final(self).output_spec() == Some(StreamOrValue::<O, OS>::Stream(stream, None)),
            final(self).uuid_spec() == old(self).uuid_spec(),
            final(self).metadata_spec() == old(self).metadata_spec(),
            final(self).input_spec() == old(self).input_spec(),
    {
        self.output = Some(StreamOrValue::from_stream(stream));
    }

    /// Sets the output to a stream, with the collector that joins its items.
    pub fn set_output_stream_with_collector(&mut self, stream: OS, collector: Box<dyn StreamCollector<O>>)
        ensures
            final(self).output_spec() == Some(StreamOrValue::<O, OS>::Stream(stream, Some(collector))),
            final(self).uuid_spec() == old(self).uuid_spec(),
            final(self).metadata_spec() == old(self).metadata_spec(),
            final(self).input_spec() == old(self).input_spec(),
    {
        self.output = Some(StreamOrValue::Stream(stream, Some(collector)));
    }
    /// The first step of reading the input as a value: an error without
    /// input; otherwise the step of its value (`StreamOrValue::start_collect`),
    /// whose error is reported as a collector error of this exchange.
    pub fn start_input(&mut self) -> (r: Result<Option<Box<dyn StreamCollector<I>>>, ExchangeError>)
        ensures
            match old(self).input_spec() {
                None => r matches Err(e) && is_error(e, ErrorKind::InputRead, old(self).uuid_spec(), "No input available"@)
                    && final(self).input_spec() == old(self).input_spec(),
                Some(StreamOrValue::Stream(s, Some(c))) => r == Ok::<Option<Box<dyn StreamCollector<I>>>, ExchangeError>(Some(c))
                    && final(self).input_spec() == Some(StreamOrValue::<I, IS>::Stream(s, None)),
                Some(StreamOrValue::Stream(s, None)) => r matches Err(ExchangeError::ExchangeCollectorError(u, CollectorError::InvalidStreamError(m)))
                    && u == old(self).uuid_spec() && m@ == no_collector_message()
                    && final(self).input_spec() == old(self).input_spec(),
                Some(_) => r == Ok::<Option<Box<dyn StreamCollector<I>>>, ExchangeError>(None)
                    && final(self).input_spec() == old(self).input_spec(),
            },
            final(self).uuid_spec() == old(self).uuid_spec(),
            final(self).metadata_spec() == old(self).metadata_spec(),
            final(self).output_spec() == old(self).output_spec(),
    {
        let uuid = self.uuid;
        match &mut self.input {
            Some(source) => match source.start_collect() {
                Ok(c) => Ok(c),
                Err(e) => Err(ExchangeError::exchange_collector_error(uuid, e)),
            },
            None => Err(ExchangeError::input_read_error(uuid, "No input available")),
        }
    }

    /// The first step of reading the input as a value with a collector of
    /// the caller's: an error without input; `true` where the input is a
    /// stream whose items are to be read and passed to `finish_input`.
    pub fn input_needs_collecting(&self) -> (r: Result<bool, ExchangeError>)
        ensures
            match self.input_spec() {
                None => r matches Err(e) && is_error(e, ErrorKind::InputRead, self.uuid_spec(), "No input available"@),
                Some(v) => r == Ok::<bool, ExchangeError>(v is Stream),
            },
    {
        match &self.input {
            Some(source) => Ok(source.is_stream()),
            None => Err(ExchangeError::input_read_error(self.uuid, "No input available")),
        }
    }

    /// The input stream, while the input is one, for its items to be read.
    pub fn input_stream_mut(&mut self) -> (r: Option<&mut IS>)
        ensures
            match old(self).input_spec() {
                Some(StreamOrValue::Stream(s, c)) => r is Some && *r.unwrap() == s
                    && final(self).input_spec() == Some(StreamOrValue::<I, IS>::Stream(*final(r.unwrap()), c)),
                _ => r is None && final(self).input_spec() == old(self).input_spec(),
            },
            final(self).uuid_spec() == old(self).uuid_spec(),
            final(self).metadata_spec() == old(self).metadata_spec(),
            final(self).output_spec() == old(self).output_spec(),
    {
        match &mut self.input {
            Some(source) => source.stream_mut(),
            None => None,
        }
    }

    /// The last step of reading the input stream as a value
    /// (`StreamOrValue::finish_collect`), whose error is reported as a
    /// collector error of this exchange.
    pub fn finish_input<K: StreamCollector<I> + ?Sized>(&mut self, drained: Result<Vec<I>, String>, collector: &K) -> (r: Result<(), ExchangeError>)
        requires
            old(self).input_spec() matches Some(StreamOrValue::Stream(..)),
        ensures
            match drained {
                Err(e) => r matches Err(ExchangeError::ExchangeCollectorError(u, CollectorError::StreamCollectError(m)))
                    && u == old(self).uuid_spec() && m@ == stream_failure_message(e@)
                    && final(self).input_spec() == old(self).input_spec(),
                Ok(items) => match final(self).input_spec() {
                    Some(StreamOrValue::Collected(v)) => r is Ok && collector.collects(items@, Ok(v)),
                    _ => r matches Err(ExchangeError::ExchangeCollectorError(u, ce)) && u == old(self).uuid_spec()
                        && collector.collects(items@, Err(ce)) && final(self).input_spec() == old(self).input_spec(),
                },
            },
            final(self).uuid_spec() == old(self).uuid_spec(),
            final(self).metadata_spec() == old(self).metadata_spec(),
            final(self).output_spec() == old(self).output_spec(),
    {
        let mut source = self.input.take().unwrap();
        let done = source.finish_collect(drained, collector);
        self.input = Some(source);
        match done {
            Ok(()) => Ok(()),
            Err(e) => Err(ExchangeError::exchange_collector_error(self.uuid, e)),
        }
    }

    /// The input value, once there is one.
    pub fn input_value(&self) -> (r: Option<&I>)
        ensures
            match self.input_spec() {
                Some(source) => match source.value_spec() {
                    Some(v) => r == Some(&v),
                    None => r is None,
                },
                None => r is None,
            },
    {
        match &self.input {
            Some(source) => source.value(),
            None => None,
        }
    }

    /// Takes the input out, value or stream, to be turned into a value; an
    /// error without input.
    pub fn take_input_source(&mut self) -> (r: Result<StreamOrValue<I, IS>, ExchangeError>)
        ensures
            match old(self).input_spec() {
                Some(source) => r == Ok::<StreamOrValue<I, IS>, ExchangeError>(source),
                None => r matches Err(e) && is_error(e, ErrorKind::InputTake, old(self).uuid_spec(), "No input available to take"@),
            },
            final(self).input_spec() is None,
            final(self).uuid_spec() == old(self).uuid_spec(),
            final(self).metadata_spec() == old(self).metadata_spec(),
            final(self).output_spec() == old(self).output_spec(),
    {
        match self.input.take() {
            Some(source) => Ok(source),
            None => Err(ExchangeError::input_take_error(self.uuid, "No input available to take")),
        }
    }

    /// Takes the input stream out, to be passed on unread; an error without
    /// input, or where the input is a value.
    pub fn take_input_stream(&mut self) -> (r: Result<IS, ExchangeError>)
        ensures
            match old(self).input_spec() {
                Some(StreamOrValue::Stream(s, _)) => r == Ok::<IS, ExchangeError>(s),
                Some(_) => r matches Err(ExchangeError::ExchangeCollectorError(u, CollectorError::InvalidStreamError(m)))
                    && u == old(self).uuid_spec() && m@ == "No stream to take"@,
                None => r matches Err(e) && is_error(e, ErrorKind::InputTake, old(self).uuid_spec(), "No input stream available to take"@),
            },
            final(self).input_spec() is None,
            final(self).uuid_spec() == old(self).uuid_spec(),
            final(self).metadata_spec() == old(self).metadata_spec(),
            final(self).output_spec() == old(self).output_spec(),
    {
        match self.input.take() {
            Some(source) => match source.take_stream() {
                Ok(s) => Ok(s),
                Err(e) => Err(ExchangeError::exchange_collector_error(self.uuid, e)),
            },
            None => Err(ExchangeError::input_take_error(self.uuid, "No input stream available to take")),
        }
    }

    /// The first step of reading the output as a value: an error without
    /// output; otherwise the step of its value (`StreamOrValue::start_collect`),
    /// whose error is reported as a collector error of this exchange.
    pub fn start_output(&mut self) -> (r: Result<Option<Box<dyn StreamCollector<O>>>, ExchangeError>)
        ensures
            match old(self).output_spec() {
                None => r matches Err(e) && is_error(e, ErrorKind::OutputRead, old(self).uuid_spec(), "No output available"@)
                    && final(self).output_spec() == old(self).output_spec(),
                Some(StreamOrValue::Stream(s, Some(c))) => r == Ok::<Option<Box<dyn StreamCollector<O>>>, ExchangeError>(Some(c))
                    && final(self).output_spec() == Some(StreamOrValue::<O, OS>::Stream(s, None)),
                Some(StreamOrValue::Stream(s, None)) => r matches Err(ExchangeError::ExchangeCollectorError(u, CollectorError::InvalidStreamError(m)))
                    && u == old(self).uuid_spec() && m@ == no_collector_message()
                    && final(self).output_spec() == old(self).output_spec(),
                Some(_) => r == Ok::<Option<Box<dyn StreamCollector<O>>>, ExchangeError>(None)
                    && final(self).output_spec() == old(self).output_spec(),
            },
            final(self).uuid_spec() == old(self).uuid_spec(),
            final(self).metadata_spec() == old(self).metadata_spec(),
            final(self).input_spec() == old(self).input_spec(),
    {
        let uuid = self.uuid;
        match &mut self.output {
            Some(source) => match source.start_collect() {
                Ok(c) => Ok(c),
                Err(e) => Err(ExchangeError::exchange_collector_error(uuid, e)),
            },
            None => Err(ExchangeError::output_read_error(uuid, "No output available")),
        }
    }

    /// The first step of reading the output as a value with a collector of
    /// the caller's: an error without output; `true` where the output is a
    /// stream whose items are to be read and passed to `finish_output`.
    pub fn output_needs_collecting(&self) -> (r: Result<bool, ExchangeError>)
        ensures
            match self.output_spec() {
                None => r matches Err(e) && is_error(e, ErrorKind::OutputRead, self.uuid_spec(), "No output available"@),
                Some(v) => r == Ok::<bool, ExchangeError>(v is Stream),
            },
    {
        match &self.output {
            Some(source) => Ok(source.is_stream()),
            None => Err(ExchangeError::output_read_error(self.uuid, "No output available")),
        }
    }

    /// The output stream, while the output is one, for its items to be read.
    pub fn output_stream_mut(&mut self) -> (r: Option<&mut OS>)
        ensures
            match old(self).output_spec() {
                Some(StreamOrValue::Stream(s, c)) => r is Some && *r.unwrap() == s
                    && final(self).output_spec() == Some(StreamOrValue::<O, OS>::Stream(*final(r.unwrap()), c)),
                _ => r is None && final(self).output_spec() == old(self).output_spec(),
            },
            final(self).uuid_spec() == old(self).uuid_spec(),
            final(self).metadata_spec() == old(self).metadata_spec(),
            final(self).input_spec() == old(self).input_spec(),
    {
        match &mut self.output {
            Some(source) => source.stream_mut(),
            None => None,
        }
    }

    /// The last step of reading the output stream as a value
    /// (`StreamOrValue::finish_collect`), whose error is reported as a
    /// collector error of this exchange.
    pub fn finish_output<K: StreamCollector<O> + ?Sized>(&mut self, drained: Result<Vec<O>, String>, collector: &K) -> (r: Result<(), ExchangeError>)
        requires
            old(self).output_spec() matches Some(StreamOrValue::Stream(..)),
        ensures
            match drained {
                Err(e) => r matches Err(ExchangeError::ExchangeCollectorError(u, CollectorError::StreamCollectError(m)))
                    && u == old(self).uuid_spec() && m@ == stream_failure_message(e@)
                    && final(self).output_spec() == old(self).output_spec(),
                Ok(items) => match final(self).output_spec() {
                    Some(StreamOrValue::Collected(v)) => r is Ok && collector.collects(items@, Ok(v)),
                    _ => r matches Err(ExchangeError::ExchangeCollectorError(u, ce)) && u == old(self).uuid_spec()
                        && collector.collects(items@, Err(ce)) && final(self).output_spec() == old(self).output_spec(),
                },
            },
            final(self).uuid_spec() == old(self).uuid_spec(),
            final(self).metadata_spec() == old(self).metadata_spec(),
            final(self).input_spec() == old(self).input_spec(),
    {
        let mut source = self.output.take().unwrap();
        let done = source.finish_collect(drained, collector);
        self.output = Some(source);
        match done {
            Ok(()) => Ok(()),
            Err(e) => Err(ExchangeError::exchange_collector_error(self.uuid, e)),
        }
    }

    /// The output value, once there is one.
    pub fn output_value(&self) -> (r: Option<&O>)
        ensures
            match self.output_spec() {
                Some(source) => match source.value_spec() {
                    Some(v) => r == Some(&v),
                    None => r is None,
                },
                None => r is None,
            },
    {
        match &self.output {
            Some(source) => source.value(),
            None => None,
        }
    }

    /// Takes the output out, value or stream, to be turned into a value; an
    /// error without output.
    pub fn take_output_source(&mut self) -> (r: Result<StreamOrValue<O, OS>, ExchangeError>)
        ensures
            match old(self).output_spec() {
                Some(source) => r == Ok::<StreamOrValue<O, OS>, ExchangeError>(source),
                None => r matches Err(e) && is_error(e, ErrorKind::OutputTake, old(self).uuid_spec(), "No output available to take"@),
            },
            final(self).output_spec() is None,
            final(self).uuid_spec() == old(self).uuid_spec(),
            final(self).metadata_spec() == old(self).metadata_spec(),
            final(self).input_spec() == old(self).input_spec(),
    {
        match self.output.take() {
            Some(source) => Ok(source),
            None => Err(ExchangeError::output_take_error(self.uuid, "No output available to take")),
        }
    }

    /// Takes the output stream out, to be passed on unread; an error without
    /// output, or where the output is a value.
    pub fn take_output_stream(&mut self) -> (r: Result<OS, ExchangeError>)
        ensures
            match old(self).output_spec() {
                Some(StreamOrValue::Stream(s, _)) => r == Ok::<OS, ExchangeError>(s),
                Some(_) => r matches Err(ExchangeError::ExchangeCollectorError(u, CollectorError::InvalidStreamError(m)))
                    && u == old(self).uuid_spec() && m@ == "No stream to take"@,
                None => r matches Err(e) && is_error(e, ErrorKind::OutputTake, old(self).uuid_spec(), "No output stream available to take"@),
            },
            final(self).output_spec() is None,
            final(self).uuid_spec() == old(self).uuid_spec(),
            final(self).metadata_spec() == old(self).metadata_spec(),
            final(self).input_spec() == old(self).input_spec(),
    {
        match self.output.take() {
            Some(source) => match source.take_stream() {
                Ok(s) => Ok(s),
                Err(e) => Err(ExchangeError::exchange_collector_error(self.uuid, e)),
            },
            None => Err(ExchangeError::output_take_error(self.uuid, "No output stream available to take")),
        }
    }

    /// Stores as the input what `processor` makes of the items read from a
    /// stream. `drained` holds those items, or the text of the error the
    /// stream ended with, which is reported as a read error.
    pub fn process_drained_input<F: FnOnce(Vec<I>) -> Result<I, ExchangeError>>(
        &mut self,
        drained: Result<Vec<I>, String>,
        processor: F,
    ) -> (r: Result<(), ExchangeError>)
        requires
            forall|items: Vec<I>| processor.requires((items,)),
        ensures
            match drained {
                Err(e) => r matches Err(ExchangeError::InputReadError(u, m)) && u == old(self).uuid_spec()
                    && m@ == "Stream error: "@ + e@ && final(self).input_spec() == old(self).input_spec(),
                Ok(items) => match r {
                    Ok(_) => final(self).input_spec() matches Some(StreamOrValue::Value(v))
                        && processor.ensures((items,), Ok::<I, ExchangeError>(v)),
                    Err(x) => processor.ensures((items,), Err::<I, ExchangeError>(x))
                        && final(self).input_spec() == old(self).input_spec(),
                },
            },
            final(self).uuid_spec() == old(self).uuid_spec(),
            final(self).metadata_spec() == old(self).metadata_spec(),
            final(self).output_spec() == old(self).output_spec(),
    {
        match drained {
            Err(e) => {
                let mut m = "Stream error: ".to_owned();
                m.push_str(e.as_str());
                Err(ExchangeError::InputReadError(self.uuid, m))
            },
            Ok(items) => match processor(items) {
                Ok(v) => {
                    self.set_input(v);
                    Ok(())
                },
                Err(x) => Err(x),
            },
        }
    }

    /// Stores as the input the items read from a stream, joined by
    /// `collector`. `drained` holds those items, or the text of the error
    /// the stream ended with, which is reported as a read error; an error
    /// of the collector is reported as a collector error of this exchange.
    pub fn collect_drained_input<K: StreamCollector<I> + ?Sized>(
        &mut self,
        drained: Result<Vec<I>, String>,
        collector: &K,
    ) -> (r: Result<(), ExchangeError>)
        ensures
            match drained {
                Err(e) => r matches Err(ExchangeError::InputReadError(u, m)) && u == old(self).uuid_spec()
                    && m@ == "Stream error: "@ + e@ && final(self).input_spec() == old(self).input_spec(),
                Ok(items) => match r {
                    Ok(_) => final(self).input_spec() matches Some(StreamOrValue::Value(v))
                        && collector.collects(items@, Ok(v)),
                    Err(x) => x matches ExchangeError::ExchangeCollectorError(u, ce) && u == old(self).uuid_spec()
                        && collector.collects(items@, Err(ce)) && final(self).input_spec() == old(self).input_spec(),
                },
            },
            final(self).uuid_spec() == old(self).uuid_spec(),
            final(self).metadata_spec() == old(self).metadata_spec(),
            final(self).output_spec() == old(self).output_spec(),
    {
        match drained {
            Err(e) => {
                let mut m = "Stream error: ".to_owned();
                m.push_str(e.as_str());
                Err(ExchangeError::InputReadError(self.uuid, m))
            },
            Ok(items) => match collector.collect(items) {
                Ok(v) => {
                    self.set_input(v);
                    Ok(())
                },
                Err(ce) => Err(ExchangeError::exchange_collector_error(self.uuid, ce)),
            },
        }
    }

    /// Stores as the output what `processor` makes of the items read from a
    /// stream. `drained` holds those items, or the text of the error the
    /// stream ended with, which is reported as a read error.
    pub fn process_drained_output<F: FnOnce(Vec<O>) -> Result<O, ExchangeError>>(
        &mut self,
        drained: Result<Vec<O>, String>,
        processor: F,
    ) -> (r: Result<(), ExchangeError>)
        requires
            forall|items: Vec<O>| processor.requires((items,)),
        ensures
            match drained {
                Err(e) => r matches Err(ExchangeError::OutputReadError(u, m)) && u == old(self).uuid_spec()
                    && m@ == "Stream error: "@ + e@ && final(self).output_spec() == old(self).output_spec(),
                Ok(items) => match r {
                    Ok(_) => final(self).output_spec() matches Some(StreamOrValue::Value(v))
                        && processor.ensures((items,), Ok::<O, ExchangeError>(v)),
                    Err(x) => processor.ensures((items,), Err::<O, ExchangeError>(x))
                        && final(self).output_spec() == old(self).output_spec(),
                },
            },
            final(self).uuid_spec() == old(self).uuid_spec(),
            final(self).metadata_spec() == old(self).metadata_spec(),
            final(self).input_spec() == old(self).input_spec(),
    {
        match drained {
            Err(e) => {
                let mut m = "Stream error: ".to_owned();
                m.push_str(e.as_str());
                Err(ExchangeError::OutputReadError(self.uuid, m))
            },
            Ok(items) => match processor(items) {
                Ok(v) => {
                    self.set_output(v);
                    Ok(())
                },
                Err(x) => Err(x),
            },
        }
    }

    /// Stores as the output the items read from a stream, joined by
    /// `collector`. `drained` holds those items, or the text of the error
    /// the stream ended with, which is reported as a read error; an error
    /// of the collector is reported as a collector error of this exchange.
    pub fn collect_drained_output<K: StreamCollector<O> + ?Sized>(
        &mut self,
        drained: Result<Vec<O>, String>,
        collector: &K,
    ) -> (r: Result<(), ExchangeError>)
        ensures
            match drained {
                Err(e) => r matches Err(ExchangeError::OutputReadError(u, m)) && u == old(self).uuid_spec()
                    && m@ == "Stream error: "@ + e@ && final(self).output_spec() == old(self).output_spec(),
                Ok(items) => match r {
                    Ok(_) => final(self).output_spec() matches Some(StreamOrValue::Value(v))
                        && collector.collects(items@, Ok(v)),
                    Err(x) => x matches ExchangeError::ExchangeCollectorError(u, ce) && u == old(self).uuid_spec()
                        && collector.collects(items@, Err(ce)) && final(self).output_spec() == old(self).output_spec(),
                },
            },
            final(self).uuid_spec() == old(self).uuid_spec(),
            final(self).metadata_spec() == old(self).metadata_spec(),
            final(self).input_spec() == old(self).input_spec(),
    {
        match drained {
            Err(e) => {
                let mut m = "Stream error: ".to_owned();
                m.push_str(e.as_str());
                Err(ExchangeError::OutputReadError(self.uuid, m))
            },
            Ok(items) => match collector.collect(items) {
                Ok(v) => {
                    self.set_output(v);
                    Ok(())
                },
                Err(ce) => Err(ExchangeError::exchange_collector_error(self.uuid, ce)),
            },
        }
    }
}


/// The input an exchange is built with.
#[verifier::reject_recursive_types(I)]
pub enum InputConfig<I, S> {
    /// None was given: an exchange cannot be built so.
    NoInput,
    Buffered(I),
    Streaming(S),
    StreamingWithCollector { stream: S, collector: Box<dyn StreamCollector<I>> },
}

/// What an exchange built from an input configuration starts with as its
/// input; nothing for `NoInput`.
pub open spec fn configured_input<I, S>(config: InputConfig<I, S>) -> Option<StreamOrValue<I, S>> {
    match config {
        InputConfig::NoInput => None,
        InputConfig::Buffered(i) => Some(StreamOrValue::Value(i)),
        InputConfig::Streaming(s) => Some(StreamOrValue::Stream(s, None)),
        InputConfig::StreamingWithCollector { stream, collector } => Some(StreamOrValue::Stream(stream, Some(collector))),
    }
}

/// Gathers what an exchange is to start with, then builds it.
#[verifier::reject_recursive_types(I)]
pub struct ExchangeBuilder<I, O, M, S> {
    uuid: Option<u128>,
    phantom: core::marker::PhantomData<O>,
    metadata: Option<M>,
    input_config: InputConfig<I, S>,
    output_config: OutputConfig,
}

impl<I, O, M, S> ExchangeBuilder<I, O, M, S> {
    pub closed spec fn uuid_spec(&self) -> Option<u128> {
        self.uuid
    }

    pub closed spec fn metadata_spec(&self) -> Option<M> {
        self.metadata
    }

    pub closed spec fn input_config_spec(&self) -> InputConfig<I, S> {
        self.input_config
    }

    pub closed spec fn output_config_spec(&self) -> OutputConfig {
        self.output_config
    }

    /// A builder with nothing set.
    pub fn new() -> (b: Self)
        ensures
            b.uuid_spec() is None,
            b.metadata_spec() is None,
            b.input_config_spec() is NoInput,
            b.output_config_spec() == OutputConfig::NoOutput,
    {
        ExchangeBuilder {
            uuid: None,
            phantom: core::marker::PhantomData,
            metadata: None,
            input_config: InputConfig::NoInput,
            output_config: OutputConfig::NoOutput,
        }
    }

    /// The exchange is to be named `uuid`; without this it gets a random one.
    pub fn with_uuid(self, uuid: u128) -> (b: Self)
        ensures
            b.uuid_spec() == Some(uuid),
            b.metadata_spec() == self.metadata_spec(),
            b.input_config_spec() == self.input_config_spec(),
            b.output_config_spec() == self.output_config_spec(),
    {
        let mut b = self;
        b.uuid = Some(uuid);
        b
    }

    pub fn with_metadata(self, metadata: M) -> (b: Self)
        ensures
            b.metadata_spec() == Some(metadata),
            b.uuid_spec() == self.uuid_spec(),
            b.input_config_spec() == self.input_config_spec(),
            b.output_config_spec() == self.output_config_spec(),
    {
        let mut b = self;
        b.metadata = Some(metadata);
        b
    }

    /// The input is to be the value `input`, replacing any input set before.
    pub fn with_buffered_input(self, input: I) -> (b: Self)
        ensures
            b.input_config_spec() == InputConfig::<I, S>::Buffered(input),
            b.uuid_spec() == self.uuid_spec(),
            b.metadata_spec() == self.metadata_spec(),
            b.output_config_spec() == self.output_config_spec(),
    {
        let mut b = self;
        b.input_config = InputConfig::Buffered(input);
        b
    }

    /// The input is to be `stream`, without a collector.
    pub fn with_streaming_input(self, stream: S) -> (b: Self)
        ensures
            b.input_config_spec() == InputConfig::<I, S>::Streaming(stream),
            b.uuid_spec() == self.uuid_spec(),
            b.metadata_spec() == self.metadata_spec(),
            b.output_config_spec() == self.output_config_spec(),
    {
        let mut b = self;
        b.input_config = InputConfig::Streaming(stream);
        b
    }

    /// The input is to be `stream`, whose items `collector` joins.
    pub fn with_streaming_input_and_collector(self, stream: S, collector: Box<dyn StreamCollector<I>>) -> (b: Self)
        ensures
            b.input_config_spec() == (InputConfig::<I, S>::StreamingWithCollector { stream, collector }),
            b.uuid_spec() == self.uuid_spec(),
            b.metadata_spec() == self.metadata_spec(),
            b.output_config_spec() == self.output_config_spec(),
    {
        let mut b = self;
        b.input_config = InputConfig::StreamingWithCollector { stream, collector };
        b
    }

    pub fn with_buffered_output(self) -> (b: Self)
        ensures
            b.output_config_spec() == OutputConfig::Buffered,
            b.uuid_spec() == self.uuid_spec(),
            b.metadata_spec() == self.metadata_spec(),
            b.input_config_spec() == self.input_config_spec(),
    {
        let mut b = self;
        b.output_config = OutputConfig::Buffered;
        b
    }

    pub fn with_streaming_output(self) -> (b: Self)
        ensures
            b.output_config_spec() == OutputConfig::Streaming,
            b.uuid_spec() == self.uuid_spec(),
            b.metadata_spec() == self.metadata_spec(),
            b.input_config_spec() == self.input_config_spec(),
    {
        let mut b = self;
        b.output_config = OutputConfig::Streaming;
        b
    }

    /// The exchange: named by the UUID given (else a random version 4 one), with the
    /// metadata given and the input configured, and no output yet. An
    /// exchange without input cannot be built.
    pub fn build<OS>(self) -> (r: Result<Exchange<I, O, M, S, OS>, ExchangeBuilderError>)
        ensures
            match self.input_config_spec() {
                InputConfig::NoInput => r matches Err(ExchangeBuilderError::InvalidInputConfig(m))
                    && m@ == "No input type defined for exchange."@,
                _ => r matches Ok(e) && e.input_spec() == configured_input(self.input_config_spec())
                    && e.metadata_spec() == self.metadata_spec() && e.output_spec() is None
                    && match self.uuid_spec() {
                        Some(u) => e.uuid_spec() == u,
                        None => is_v4_uuid(e.uuid_spec()),
                    },
            },
    {
        let mut exchange = match self.uuid {
            Some(uuid) => Exchange::new_with_uuid(uuid),
            None => Exchange::new(),
        };
        match self.metadata {
            Some(metadata) => exchange.set_metadata(metadata),
            None => {},
        }
        match self.input_config {
            InputConfig::NoInput => {
                return Err(ExchangeBuilderError::invalid_input_config("No input type defined for exchange."));
            },
            InputConfig::Buffered(input) => exchange.set_input(input),
            InputConfig::Streaming(stream) => exchange.set_input_stream(stream),
            InputConfig::StreamingWithCollector { stream, collector } => {
                exchange.input = Some(StreamOrValue::Stream(stream, Some(collector)));
            },
        }
        Ok(exchange)
    }
    /// An exchange with the value `input` as its input, to give a value as
    /// its output.
    pub fn buffered<OS>(input: I) -> (r: Result<Exchange<I, O, M, S, OS>, ExchangeBuilderError>)
        ensures
            r matches Ok(e) && e.input_spec() == Some(StreamOrValue::<I, S>::Value(input))
                && e.metadata_spec() is None && e.output_spec() is None,
    {
        Self::new().with_buffered_input(input).with_buffered_output().build()
    }

    /// An exchange whose input is `input_stream` (without a collector), to
    /// give a value as its output.
    pub fn streaming_request_buffered_response<OS>(input_stream: S) -> (r: Result<Exchange<I, O, M, S, OS>, ExchangeBuilderError>)
        ensures
            r matches Ok(e) && e.input_spec() == Some(StreamOrValue::<I, S>::Stream(input_stream, None))
                && e.metadata_spec() is None && e.output_spec() is None,
    {
        Self::new().with_streaming_input(input_stream).with_buffered_output().build()
    }

    /// An exchange whose input is `input_stream`, joined by
    /// `input_collector`, to give a value as its output.
    pub fn streaming_request_buffered_response_with_collector<OS>(
        input_stream: S,
        input_collector: Box<dyn StreamCollector<I>>,
    ) -> (r: Result<Exchange<I, O, M, S, OS>, ExchangeBuilderError>)
        ensures
            r matches Ok(e) && e.input_spec() == configured_input(
                InputConfig::<I, S>::StreamingWithCollector { stream: input_stream, collector: input_collector },
            )
                && e.metadata_spec() is None && e.output_spec() is None,
    {
        let b = ExchangeBuilder {
            uuid: None,
            phantom: core::marker::PhantomData,
            metadata: None,
            input_config: InputConfig::StreamingWithCollector { stream: input_stream, collector: input_collector },
            output_config: OutputConfig::Buffered,
        };
        b.build()
    }

    /// An exchange with the value `input` as its input, to give a stream as
    /// its output.
    pub fn buffered_request_streaming_response<OS>(input: I) -> (r: Result<Exchange<I, O, M, S, OS>, ExchangeBuilderError>)
        ensures
            r matches Ok(e) && e.input_spec() == Some(StreamOrValue::<I, S>::Value(input))
                && e.metadata_spec() is None && e.output_spec() is None,
    {
        Self::new().with_buffered_input(input).with_streaming_output().build()
    }

    /// The same as `buffered_request_streaming_response`: the output's
    /// collector is given with the output stream, later.
    pub fn buffered_request_streaming_response_with_collector<OS>(input: I) -> (r: Result<Exchange<I, O, M, S, OS>, ExchangeBuilderError>)
        ensures
            r matches Ok(e) && e.input_spec() == Some(StreamOrValue::<I, S>::Value(input))
                && e.metadata_spec() is None && e.output_spec() is None,
    {
        Self::new().with_buffered_input(input).with_streaming_output().build()
    }

    /// An exchange whose input is `input_stream` (without a collector), to
    /// give a stream as its output.
    pub fn streaming<OS>(input_stream: S) -> (r: Result<Exchange<I, O, M, S, OS>, ExchangeBuilderError>)
        ensures
            r matches Ok(e) && e.input_spec() == Some(StreamOrValue::<I, S>::Stream(input_stream, None))
                && e.metadata_spec() is None && e.output_spec() is None,
    {
        Self::new().with_streaming_input(input_stream).with_streaming_output().build()
    }

    /// An exchange whose input is `input_stream`, joined by
    /// `input_collector`, to give a stream as its output.
    pub fn streaming_with_collectors<OS>(
        input_stream: S,
        input_collector: Box<dyn StreamCollector<I>>,
    ) -> (r: Result<Exchange<I, O, M, S, OS>, ExchangeBuilderError>)
        ensures
            r matches Ok(e) && e.input_spec() == configured_input(
                InputConfig::<I, S>::StreamingWithCollector { stream: input_stream, collector: input_collector },
            )
                && e.metadata_spec() is None && e.output_spec() is None,
    {
        let b = ExchangeBuilder {
            uuid: None,
            phantom: core::marker::PhantomData,
            metadata: None,
            input_config: InputConfig::StreamingWithCollector { stream: input_stream, collector: input_collector },
            output_config: OutputConfig::Streaming,
        };
        b.build()
    }
}

} // verus!
