//! Collecting the items of a stream into one value, and the errors of
//! streaming exchanges.
use vstd::prelude::*;
use crate::ext::{uuid_hyphenated, uuid_text};

verus! {

broadcast use vstd::string::group_string_axioms;

/// Why the items of a stream could not be collected.
#[derive(Debug)]
pub enum CollectorError {
    InvalidStreamError(String),
    StreamCollectError(String),
}

impl CollectorError {
    pub fn invalid_stream_error(msg: &str) -> (e: Self)
        ensures
            e matches CollectorError::InvalidStreamError(m) && m@ == msg@,
    {
        Self::InvalidStreamError(msg.to_owned())
    }

    pub fn stream_collect_error(msg: &str) -> (e: Self)
        ensures
            e matches CollectorError::StreamCollectError(m) && m@ == msg@,
    {
        Self::StreamCollectError(msg.to_owned())
    }

    /// The text displayed for the error.
    pub fn to_text(&self) -> (r: String)
        ensures
            r@ == collector_error_text(*self),
    {
        match self {
            CollectorError::InvalidStreamError(msg) => {
                let mut r = "Invalid Stream Error: ".to_owned();
                r.push_str(msg.as_str());
                r
            },
            CollectorError::StreamCollectError(msg) => {
                let mut r = "Stream Collect Error: ".to_owned();
                r.push_str(msg.as_str());
                r
            },
        }
    }
}

/// The text displayed for a collector error.
pub open spec fn collector_error_text(e: CollectorError) -> Seq<char> {
    match e {
        CollectorError::InvalidStreamError(msg) => "Invalid Stream Error: "@ + msg@,
        CollectorError::StreamCollectError(msg) => "Stream Collect Error: "@ + msg@,
    }
}

/// Collects the items of a stream into one value.
pub trait StreamCollector<T> {
    /// Whether `r` is what `collect` may answer on `items`; of a collector
    /// that says nothing more, any answer.
    open spec fn collects(&self, items: Seq<T>, r: Result<T, CollectorError>) -> bool {
        true
    }

    fn collect(&self, items: Vec<T>) -> (r: Result<T, CollectorError>)
        ensures
            self.collects(items@, r),
    ;
}

/// The views of a list of strings.
pub open spec fn texts(v: Seq<String>) -> Seq<Seq<char>> {
    v.map_values(|s: String| s@)
}

/// Joins strings in order, with nothing between them.
pub struct StringCollector;

impl StringCollector {
    /// The items joined in order.
    pub fn concat(&self, items: Vec<String>) -> (r: String)
        ensures
            r@ == texts(items@).flatten(),
    {
        let mut result = String::new();
        let mut i: usize = 0;
        while i < items.len()
            invariant
                i <= items@.len(),
                result@ == texts(items@.take(i as int)).flatten(),
            decreases items@.len() - i,
        {
            result.push_str(items[i].as_str());
            proof {
                let prev = texts(items@.take(i as int));
                assert(texts(items@.take(i + 1)) =~= prev.push(items@[i as int]@));
                prev.lemma_flatten_push(items@[i as int]@);
            }
            i = i + 1;
        }
        proof {
            assert(items@.take(items@.len() as int) =~= items@);
        }
        result
    }
}

impl StreamCollector<String> for StringCollector {
    open spec fn collects(&self, items: Seq<String>, r: Result<String, CollectorError>) -> bool {
        r matches Ok(s) && s@ == texts(items).flatten()
    }

    fn collect(&self, items: Vec<String>) -> (r: Result<String, CollectorError>) {
        Ok(self.concat(items))
    }
}

/// The contents of a list of vectors.
pub open spec fn contents<T>(v: Seq<Vec<T>>) -> Seq<Seq<T>> {
    v.map_values(|x: Vec<T>| x@)
}

/// Joins vectors in order.
pub struct VecCollector<T> {
    phantom: core::marker::PhantomData<T>,
}

impl<T> VecCollector<T> {
    /// The collector; it holds nothing but its item type, so there is
    /// nothing to say of it.
    pub fn new() -> Self {
        Self { phantom: core::marker::PhantomData }
    }

    /// The items joined in order.
    pub fn concat(&self, items: Vec<Vec<T>>) -> (r: Vec<T>)
        ensures
            r@ == contents(items@).flatten(),
    {
        let ghost all = items@;
        let mut result: Vec<T> = Vec::new();
        let mut rest = items;
        while rest.len() > 0
            invariant
                contents(all).flatten() == result@ + contents(rest@).flatten(),
            decreases rest@.len(),
        {
            let ghost before = rest@;
            let ghost r0 = result@;
            let mut item = rest.remove(0);
            let ghost iv = item@;
            result.append(&mut item);
            proof {
                assert(contents(before).drop_first() =~= contents(rest@));
                assert(contents(before).first() == iv);
                assert(contents(before).flatten() == iv + contents(rest@).flatten());
                assert(result@ == r0 + iv);
                assert((r0 + iv) + contents(rest@).flatten() =~= r0 + (iv + contents(rest@).flatten()));
            }
        }
        proof {
            assert(contents(rest@) =~= Seq::<Seq<T>>::empty());
            assert(result@ + contents(rest@).flatten() =~= result@);
        }
        result
    }
}

impl<T> StreamCollector<Vec<T>> for VecCollector<T> {
    open spec fn collects(&self, items: Seq<Vec<T>>, r: Result<Vec<T>, CollectorError>) -> bool {
        r matches Ok(v) && v@ == contents(items).flatten()
    }

    fn collect(&self, items: Vec<Vec<T>>) -> (r: Result<Vec<T>, CollectorError>) {
        Ok(self.concat(items))
    }
}

/// How an exchange produces its output.
#[derive(Debug, Clone, Copy, PartialEq, Eq, Structural)]
pub enum OutputConfig {
    /// No output is produced.
    NoOutput,
    Buffered,
    Streaming,
}

/// Why an exchange could not be built.
#[derive(Debug)]
pub enum ExchangeBuilderError {
    InvalidInputConfig(String),
    InvalidOutputConfig(String),
}

impl ExchangeBuilderError {
    pub fn invalid_input_config(msg: &str) -> (e: Self)
        ensures
            e matches ExchangeBuilderError::InvalidInputConfig(m) && m@ == msg@,
    {
        ExchangeBuilderError::InvalidInputConfig(msg.to_owned())
    }

    pub fn invalid_output_config(msg: &str) -> (e: Self)
        ensures
            e matches ExchangeBuilderError::InvalidOutputConfig(m) && m@ == msg@,
    {
        ExchangeBuilderError::InvalidOutputConfig(msg.to_owned())
    }

    /// The text displayed for the error.
    pub fn to_text(&self) -> (r: String)
        ensures
            r@ == (match self {
                ExchangeBuilderError::InvalidInputConfig(m) => "Invalid input configuration: "@ + m@,
                ExchangeBuilderError::InvalidOutputConfig(m) => "Invalid output configuration: "@ + m@,
            }),
    {
        match self {
            ExchangeBuilderError::InvalidInputConfig(m) => {
                let mut r = "Invalid input configuration: ".to_owned();
                r.push_str(m.as_str());
                r
            },
            ExchangeBuilderError::InvalidOutputConfig(m) => {
                let mut r = "Invalid output configuration: ".to_owned();
                r.push_str(m.as_str());
                r
            },
        }
    }
}

/// Why an operation on a streaming exchange failed; each error names the
/// exchange by its UUID.
#[derive(Debug)]
pub enum ExchangeError {
    ExchangeCompleted(u128),
    ExchangeCollectorError(u128, CollectorError),
    MetadataReadError(u128, String),
    InputReadError(u128, String),
    InputTakeError(u128, String),
    OutputReadError(u128, String),
    OutputTakeError(u128, String),
    InputCallbackError(u128, String),
    OutputCallbackError(u128, String),
}

/// The text displayed for an error of a streaming exchange: the UUID of
/// the exchange, then what failed.
pub open spec fn exchange_error_text(e: ExchangeError) -> Seq<char> {
    match e {
        ExchangeError::ExchangeCompleted(u) => uuid_hyphenated(u) + " Exchange has already been completed"@,
        ExchangeError::MetadataReadError(u, m) => uuid_hyphenated(u) + " Failed to read metadata: "@ + m@,
        ExchangeError::InputReadError(u, m) => uuid_hyphenated(u) + " Failed to read input: "@ + m@,
        ExchangeError::InputTakeError(u, m) => uuid_hyphenated(u) + " Failed to consume input: "@ + m@,
        ExchangeError::OutputReadError(u, m) => uuid_hyphenated(u) + " Failed to read output: "@ + m@,
        ExchangeError::OutputTakeError(u, m) => uuid_hyphenated(u) + " Failed to consume output: "@ + m@,
        ExchangeError::InputCallbackError(u, m) => uuid_hyphenated(u) + " Failed to invoke input callback: "@ + m@,
        ExchangeError::OutputCallbackError(u, m) => uuid_hyphenated(u) + " Failed to invoke output callback: "@ + m@,
        ExchangeError::ExchangeCollectorError(u, c) => uuid_hyphenated(u) + " Exchange collector error: "@ + collector_error_text(c),
    }
}

/// The UUID text followed by `what`.
fn id_then(uuid: u128, what: &str) -> (r: String)
    ensures
        r@ == uuid_hyphenated(uuid) + what@,
{
    let mut r = uuid_text(uuid);
    r.push_str(what);
    r
}

/// The UUID text, then `what`, then `msg`.
fn id_then_message(uuid: u128, what: &str, msg: &String) -> (r: String)
    ensures
        r@ == uuid_hyphenated(uuid) + what@ + msg@,
{
    let mut r = id_then(uuid, what);
    r.push_str(msg.as_str());
    r
}

impl ExchangeError {
    pub fn exchange_collector_error(uuid: u128, err: CollectorError) -> (e: Self)
        ensures
            e == ExchangeError::ExchangeCollectorError(uuid, err),
    {
        ExchangeError::ExchangeCollectorError(uuid, err)
    }

    pub fn exchange_completed(uuid: u128) -> (e: Self)
        ensures
            e == ExchangeError::ExchangeCompleted(uuid),
    {
        ExchangeError::ExchangeCompleted(uuid)
    }

    pub fn metadata_read_error(uuid: u128, msg: &str) -> (e: Self)
        ensures
            e matches ExchangeError::MetadataReadError(u, m) && u == uuid && m@ == msg@,
    {
        ExchangeError::MetadataReadError(uuid, msg.to_owned())
    }

    pub fn input_read_error(uuid: u128, msg: &str) -> (e: Self)
        ensures
            e matches ExchangeError::InputReadError(u, m) && u == uuid && m@ == msg@,
    {
        ExchangeError::InputReadError(uuid, msg.to_owned())
    }

    pub fn input_take_error(uuid: u128, msg: &str) -> (e: Self)
        ensures
            e matches ExchangeError::InputTakeError(u, m) && u == uuid && m@ == msg@,
    {
        ExchangeError::InputTakeError(uuid, msg.to_owned())
    }

    pub fn output_read_error(uuid: u128, msg: &str) -> (e: Self)
        ensures
            e matches ExchangeError::OutputReadError(u, m) && u == uuid && m@ == msg@,
    {
        ExchangeError::OutputReadError(uuid, msg.to_owned())
    }

    pub fn output_take_error(uuid: u128, msg: &str) -> (e: Self)
        ensures
            e matches ExchangeError::OutputTakeError(u, m) && u == uuid && m@ == msg@,
    {
        ExchangeError::OutputTakeError(uuid, msg.to_owned())
    }

    pub fn input_callback_error(uuid: u128, msg: &str) -> (e: Self)
        ensures
            e matches ExchangeError::InputCallbackError(u, m) && u == uuid && m@ == msg@,
    {
        ExchangeError::InputCallbackError(uuid, msg.to_owned())
    }

    pub fn output_callback_error(uuid: u128, msg: &str) -> (e: Self)
        ensures
            e matches ExchangeError::OutputCallbackError(u, m) && u == uuid && m@ == msg@,
    {
        ExchangeError::OutputCallbackError(uuid, msg.to_owned())
    }

    /// The text displayed for the error.
    pub fn to_text(&self) -> (r: String)
        ensures
            r@ == exchange_error_text(*self),
    {
        match self {
            ExchangeError::ExchangeCompleted(u) => id_then(*u, " Exchange has already been completed"),
            ExchangeError::MetadataReadError(u, m) => id_then_message(*u, " Failed to read metadata: ", m),
            ExchangeError::InputReadError(u, m) => id_then_message(*u, " Failed to read input: ", m),
            ExchangeError::InputTakeError(u, m) => id_then_message(*u, " Failed to consume input: ", m),
            ExchangeError::OutputReadError(u, m) => id_then_message(*u, " Failed to read output: ", m),
            ExchangeError::OutputTakeError(u, m) => id_then_message(*u, " Failed to consume output: ", m),
            ExchangeError::InputCallbackError(u, m) => id_then_message(*u, " Failed to invoke input callback: ", m),
            ExchangeError::OutputCallbackError(u, m) => id_then_message(*u, " Failed to invoke output callback: ", m),
            ExchangeError::ExchangeCollectorError(u, c) => {
                let mut r = id_then(*u, " Exchange collector error: ");
                let t = c.to_text();
                r.push_str(t.as_str());
                r
            },
        }
    }
}

} // verus!
