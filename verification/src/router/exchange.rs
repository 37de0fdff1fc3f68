//! The data that a routed exchange carries: its identity, metadata, input
//! and output, each of which may be missing.
use vstd::prelude::*;
use crate::ext::{is_v4_uuid, new_uuid_v4, uuid_hyphenated, uuid_text};

verus! {

broadcast use vstd::string::group_string_axioms;

/// Why data could not be read from or taken out of an exchange; each error
/// names the exchange by the value of its UUID.
#[derive(Debug)]
pub enum ExchangeError {
    InputReadError(u128, String),
    InputTakeError(u128, String),
    OutputReadError(u128, String),
    OutputTakeError(u128, String),
    InputCallbackError(u128, String),
    OutputCallbackError(u128, String),
}

/// An exchange error, by view: its kind, exchange and message.
pub ghost enum ErrorView {
    InputRead(u128, Seq<char>),
    InputTake(u128, Seq<char>),
    OutputRead(u128, Seq<char>),
    OutputTake(u128, Seq<char>),
    InputCallback(u128, Seq<char>),
    OutputCallback(u128, Seq<char>),
}

impl View for ExchangeError {
    type V = ErrorView;

    open spec fn view(&self) -> ErrorView {
        match self {
            ExchangeError::InputReadError(u, m) => ErrorView::InputRead(*u, m@),
            ExchangeError::InputTakeError(u, m) => ErrorView::InputTake(*u, m@),
            ExchangeError::OutputReadError(u, m) => ErrorView::OutputRead(*u, m@),
            ExchangeError::OutputTakeError(u, m) => ErrorView::OutputTake(*u, m@),
            ExchangeError::InputCallbackError(u, m) => ErrorView::InputCallback(*u, m@),
            ExchangeError::OutputCallbackError(u, m) => ErrorView::OutputCallback(*u, m@),
        }
    }
}

impl ExchangeError {
    pub fn input_read_error(uuid: u128, msg: &str) -> (e: Self)
        ensures
            e@ == ErrorView::InputRead(uuid, msg@),
    {
        ExchangeError::InputReadError(uuid, msg.to_owned())
    }

    pub fn input_take_error(uuid: u128, msg: &str) -> (e: Self)
        ensures
            e@ == ErrorView::InputTake(uuid, msg@),
    {
        ExchangeError::InputTakeError(uuid, msg.to_owned())
    }

    pub fn output_read_error(uuid: u128, msg: &str) -> (e: Self)
        ensures
            e@ == ErrorView::OutputRead(uuid, msg@),
    {
        ExchangeError::OutputReadError(uuid, msg.to_owned())
    }

    pub fn output_take_error(uuid: u128, msg: &str) -> (e: Self)
        ensures
            e@ == ErrorView::OutputTake(uuid, msg@),
    {
        ExchangeError::OutputTakeError(uuid, msg.to_owned())
    }

    pub fn input_callback_error(uuid: u128, msg: &str) -> (e: Self)
        ensures
            e@ == ErrorView::InputCallback(uuid, msg@),
    {
        ExchangeError::InputCallbackError(uuid, msg.to_owned())
    }

    pub fn output_callback_error(uuid: u128, msg: &str) -> (e: Self)
        ensures
            e@ == ErrorView::OutputCallback(uuid, msg@),
    {
        ExchangeError::OutputCallbackError(uuid, msg.to_owned())
    }

    /// The text displayed for the error: the UUID, what failed, the message.
    pub fn to_text(&self) -> (r: String)
        ensures
            r@ == (match self@ {
                ErrorView::InputRead(u, m) => uuid_hyphenated(u) + " Failed to read input: "@ + m,
                ErrorView::InputTake(u, m) => uuid_hyphenated(u) + " Failed to consume input: "@ + m,
                ErrorView::OutputRead(u, m) => uuid_hyphenated(u) + " Failed to read output: "@ + m,
                ErrorView::OutputTake(u, m) => uuid_hyphenated(u) + " Failed to consume output: "@ + m,
                ErrorView::InputCallback(u, m) => uuid_hyphenated(u) + " Failed to invoke input callback: "@ + m,
                ErrorView::OutputCallback(u, m) => uuid_hyphenated(u) + " Failed to invoke output callback: "@ + m,
            }),
    {
        let (u, what, msg) = match self {
            ExchangeError::InputReadError(u, m) => (*u, " Failed to read input: ", m),
            ExchangeError::InputTakeError(u, m) => (*u, " Failed to consume input: ", m),
            ExchangeError::OutputReadError(u, m) => (*u, " Failed to read output: ", m),
            ExchangeError::OutputTakeError(u, m) => (*u, " Failed to consume output: ", m),
            ExchangeError::InputCallbackError(u, m) => (*u, " Failed to invoke input callback: ", m),
            ExchangeError::OutputCallbackError(u, m) => (*u, " Failed to invoke output callback: ", m),
        };
        let mut r = uuid_text(u);
        r.push_str(what);
        r.push_str(msg.as_str());
        r
    }
}

/// The identity, metadata, input and output of an exchange.
pub struct Exchange<I, O, M> {
    uuid: u128,
    metadata: Option<M>,
    input: Option<I>,
    output: Option<O>,
}

impl<I, O, M> Exchange<I, O, M> {
    pub closed spec fn uuid_spec(&self) -> u128 {
        self.uuid
    }

    pub closed spec fn metadata_spec(&self) -> Option<M> {
        self.metadata
    }

    pub closed spec fn input_spec(&self) -> Option<I> {
        self.input
    }

    pub closed spec fn output_spec(&self) -> Option<O> {
        self.output
    }

    /// An exchange with a fresh random version 4 UUID and nothing in it.
    pub fn new() -> (e: Self)
        ensures
            is_v4_uuid(e.uuid_spec()),
            e.metadata_spec() is None,
            e.input_spec() is None,
            e.output_spec() is None,
    {
        Exchange { uuid: new_uuid_v4(), metadata: None, input: None, output: None }
    }

    pub fn uuid(&self) -> (u: u128)
        ensures
            u == self.uuid_spec(),
    {
        self.uuid
    }

    /// Sets the metadata.
    pub fn add_metadata(&mut self, metadata: M)
        ensures
            final(self).metadata_spec() == Some(metadata),
            final(self).uuid_spec() == old(self).uuid_spec(),
            final(self).input_spec() == old(self).input_spec(),
            final(self).output_spec() == old(self).output_spec(),
    {
        self.metadata = Some(metadata);
    }

    /// Sets the input.
    pub fn save_input(&mut self, request: I)
        ensures
            final(self).input_spec() == Some(request),
            final(self).uuid_spec() == old(self).uuid_spec(),
            final(self).metadata_spec() == old(self).metadata_spec(),
            final(self).output_spec() == old(self).output_spec(),
    {
        self.input = Some(request);
    }

    /// The input; an error when there is none.
    pub fn input(&self) -> (r: Result<&I, ExchangeError>)
        ensures
            match self.input_spec() {
                Some(i) => r == Ok::<&I, ExchangeError>(&i),
                None => r matches Err(e) && e@ == ErrorView::InputRead(
                    self.uuid_spec(),
                    "Exchange does not contain any input data to read."@,
                ),
            },
    {
        match &self.input {
            Some(out) => Ok(out),
            None => Err(ExchangeError::input_read_error(self.uuid, "Exchange does not contain any input data to read.")),
        }
    }

    /// Mutable access to the input; an error when there is none.
    pub fn input_mut(&mut self) -> (r: Result<&mut I, ExchangeError>)
        ensures
            match old(self).input_spec() {
                Some(i) => r matches Ok(v) && *v == i && final(self).input_spec() == Some(*final(v)),
                None => r matches Err(e) && e@ == ErrorView::InputRead(
                    old(self).uuid_spec(),
                    "Exchange does not contain any input data to modify."@,
                ) && final(self).input_spec() is None,
            },
            final(self).uuid_spec() == old(self).uuid_spec(),
            final(self).metadata_spec() == old(self).metadata_spec(),
            final(self).output_spec() == old(self).output_spec(),
    {
        let uuid = self.uuid;
        match &mut self.input {
            Some(out) => Ok(out),
            None => Err(ExchangeError::input_read_error(uuid, "Exchange does not contain any input data to modify.")),
        }
    }

    /// Takes the input out. Without input there is nothing for the input
    /// listeners to run on, and that is the error returned.
    pub fn take_input(&mut self) -> (r: Result<I, ExchangeError>)
        ensures
            match old(self).input_spec() {
                Some(i) => r == Ok::<I, ExchangeError>(i),
                None => r matches Err(e) && e@ == ErrorView::InputCallback(
                    old(self).uuid_spec(),
                    "Exchange does not contain an input to perform callbacks on"@,
                ),
            },
            final(self).input_spec() is None,
            final(self).uuid_spec() == old(self).uuid_spec(),
            final(self).metadata_spec() == old(self).metadata_spec(),
            final(self).output_spec() == old(self).output_spec(),
    {
        match self.input.take() {
            Some(i) => Ok(i),
            None => Err(ExchangeError::input_callback_error(
                self.uuid,
                "Exchange does not contain an input to perform callbacks on",
            )),
        }
    }

    /// Sets the output.
    pub fn save_output(&mut self, response: O)
        ensures
            final(self).output_spec() == Some(response),
            final(self).uuid_spec() == old(self).uuid_spec(),
            final(self).metadata_spec() == old(self).metadata_spec(),
            final(self).input_spec() == old(self).input_spec(),
    {
        self.output = Some(response);
    }

    /// The output; an error when there is none.
    pub fn output(&self) -> (r: Result<&O, ExchangeError>)
        ensures
            match self.output_spec() {
                Some(o) => r == Ok::<&O, ExchangeError>(&o),
                None => r matches Err(e) && e@ == ErrorView::OutputRead(
                    self.uuid_spec(),
                    "Exchange contains no output data to read."@,
                ),
            },
    {
        match &self.output {
            Some(out) => Ok(out),
            None => Err(ExchangeError::output_read_error(self.uuid, "Exchange contains no output data to read.")),
        }
    }

    /// Mutable access to the output; an error when there is none.
    pub fn output_mut(&mut self) -> (r: Result<&mut O, ExchangeError>)
        ensures
            match old(self).output_spec() {
                Some(o) => r matches Ok(v) && *v == o && final(self).output_spec() == Some(*final(v)),
                None => r matches Err(e) && e@ == ErrorView::OutputRead(
                    old(self).uuid_spec(),
                    "Exchange does not contain any output data to modify."@,
                ) && final(self).output_spec() is None,
            },
            final(self).uuid_spec() == old(self).uuid_spec(),
            final(self).metadata_spec() == old(self).metadata_spec(),
            final(self).input_spec() == old(self).input_spec(),
    {
        let uuid = self.uuid;
        match &mut self.output {
            Some(out) => Ok(out),
            None => Err(ExchangeError::output_read_error(uuid, "Exchange does not contain any output data to modify.")),
        }
    }

    /// Takes the output out. Without output there is nothing for the output
    /// listeners to run on, and that is the error returned.
    pub fn take_output(&mut self) -> (r: Result<O, ExchangeError>)
        ensures
            match old(self).output_spec() {
                Some(o) => r == Ok::<O, ExchangeError>(o),
                None => r matches Err(e) && e@ == ErrorView::OutputCallback(
                    old(self).uuid_spec(),
                    "Exchange does not contain an output to perform callbacks on"@,
                ),
            },
            final(self).output_spec() is None,
            final(self).uuid_spec() == old(self).uuid_spec(),
            final(self).metadata_spec() == old(self).metadata_spec(),
            final(self).input_spec() == old(self).input_spec(),
    {
        match self.output.take() {
            Some(o) => Ok(o),
            None => Err(ExchangeError::output_callback_error(
                self.uuid,
                "Exchange does not contain an output to perform callbacks on",
            )),
        }
    }
}

} // verus!
