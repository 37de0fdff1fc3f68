//! The data that an exchange carries between handlers: metadata, the
//! input of the request and the output of the response.
use vstd::prelude::*;

verus! {

broadcast use vstd::string::group_string_axioms;

/// Why data could not be read from or taken out of an exchange.
#[derive(Debug)]
pub enum ExchangeError {
    InputReadError(String),
    InputTakeError(String),
    OutputReadError(String),
    OutputTakeError(String),
    InputCallbackError(String),
    OutputCallbackError(String),
}

/// An exchange error, by view: its kind and message.
pub ghost enum ErrorView {
    InputRead(Seq<char>),
    InputTake(Seq<char>),
    OutputRead(Seq<char>),
    OutputTake(Seq<char>),
    InputCallback(Seq<char>),
    OutputCallback(Seq<char>),
}

impl View for ExchangeError {
    type V = ErrorView;

    open spec fn view(&self) -> ErrorView {
        match self {
            ExchangeError::InputReadError(m) => ErrorView::InputRead(m@),
            ExchangeError::InputTakeError(m) => ErrorView::InputTake(m@),
            ExchangeError::OutputReadError(m) => ErrorView::OutputRead(m@),
            ExchangeError::OutputTakeError(m) => ErrorView::OutputTake(m@),
            ExchangeError::InputCallbackError(m) => ErrorView::InputCallback(m@),
            ExchangeError::OutputCallbackError(m) => ErrorView::OutputCallback(m@),
        }
    }
}

impl ExchangeError {
    /// The text displayed for the error: its kind, a colon, its message.
    pub fn to_text(&self) -> (r: String)
        ensures
            r@ == (match self@ {
                ErrorView::InputRead(m) => "InputReadError: "@ + m,
                ErrorView::InputTake(m) => "InputTakeError: "@ + m,
                ErrorView::OutputRead(m) => "OutputReadError: "@ + m,
                ErrorView::OutputTake(m) => "OutputTakeError: "@ + m,
                ErrorView::InputCallback(m) => "InputCallbackError: "@ + m,
                ErrorView::OutputCallback(m) => "OutputCallbackError: "@ + m,
            }),
    {
        let (kind, msg) = match self {
            ExchangeError::InputReadError(m) => ("InputReadError: ", m),
            ExchangeError::InputTakeError(m) => ("InputTakeError: ", m),
            ExchangeError::OutputReadError(m) => ("OutputReadError: ", m),
            ExchangeError::OutputTakeError(m) => ("OutputTakeError: ", m),
            ExchangeError::InputCallbackError(m) => ("InputCallbackError: ", m),
            ExchangeError::OutputCallbackError(m) => ("OutputCallbackError: ", m),
        };
        let mut r = kind.to_owned();
        r.push_str(msg.as_str());
        r
    }
}

/// The name an attachment is stored under, together with its type.
#[derive(Debug, PartialEq, Eq, Hash, PartialOrd)]
pub struct AttachmentKey(pub &'static str);

/// The metadata, input and output of an exchange; each may be missing.
pub struct ExchangeData<I, O, M> {
    metadata: Option<M>,
    input: Option<I>,
    output: Option<O>,
}

impl<I, O, M> ExchangeData<I, O, M> {
    pub closed spec fn metadata_spec(&self) -> Option<M> {
        self.metadata
    }

    pub closed spec fn input_spec(&self) -> Option<I> {
        self.input
    }

    pub closed spec fn output_spec(&self) -> Option<O> {
        self.output
    }

    /// An exchange with nothing in it.
    pub fn new() -> (d: Self)
        ensures
            d.metadata_spec() is None,
            d.input_spec() is None,
            d.output_spec() is None,
    {
        ExchangeData { metadata: None, input: None, output: None }
    }

    /// Sets the metadata.
    pub fn add_metadata(&mut self, metadata: M)
        ensures
            final(self).metadata_spec() == Some(metadata),
            final(self).input_spec() == old(self).input_spec(),
            final(self).output_spec() == old(self).output_spec(),
    {
        self.metadata = Some(metadata);
    }

    /// The metadata, if set.
    pub fn metadata(&self) -> (r: Option<&M>)
        ensures
            r == match self.metadata_spec() {
                Some(m) => Some(&m),
                None => None::<&M>,
            },
    {
        match &self.metadata {
            Some(m) => Some(m),
            None => None,
        }
    }

    /// Sets the input.
    pub fn save_input(&mut self, request: I)
        ensures
            final(self).input_spec() == Some(request),
            final(self).metadata_spec() == old(self).metadata_spec(),
            final(self).output_spec() == old(self).output_spec(),
    {
        self.input = Some(request);
    }

    /// The input; an error when there is none.
    pub fn input(&self) -> (r: Result<&I, ExchangeError>)
        ensures
            match self.input_spec() {
                Some(i) => r == Ok::<&I, ExchangeError>(&i),
                None => r matches Err(e) && e@ == ErrorView::InputRead("No input available"@),
            },
    {
        match &self.input {
            Some(i) => Ok(i),
            None => Err(ExchangeError::InputReadError("No input available".to_owned())),
        }
    }

    /// Mutable access to the input; an error when there is none.
    pub fn input_mut(&mut self) -> (r: Result<&mut I, ExchangeError>)
        ensures
            match old(self).input_spec() {
                Some(i) => r matches Ok(v) && *v == i && final(self).input_spec() == Some(*final(v)),
                None => r matches Err(e) && e@ == ErrorView::InputRead("No input available"@)
                    && final(self).input_spec() is None,
            },
            final(self).metadata_spec() == old(self).metadata_spec(),
            final(self).output_spec() == old(self).output_spec(),
    {
        match &mut self.input {
            Some(i) => Ok(i),
            None => Err(ExchangeError::InputReadError("No input available".to_owned())),
        }
    }

    /// Takes the input out, once the input listeners have run on it; with
    /// no input the listeners cannot run, which is an error.
    pub fn take_request(&mut self) -> (r: Result<I, ExchangeError>)
        ensures
            match old(self).input_spec() {
                Some(i) => r == Ok::<I, ExchangeError>(i),
                None => r matches Err(e) && e@ == ErrorView::InputCallback("Input callback failed"@),
            },
            final(self).input_spec() is None,
            final(self).metadata_spec() == old(self).metadata_spec(),
            final(self).output_spec() == old(self).output_spec(),
    {
        match self.input.take() {
            Some(i) => Ok(i),
            None => Err(ExchangeError::InputCallbackError("Input callback failed".to_owned())),
        }
    }

    /// Sets the output.
    pub fn save_output(&mut self, response: O)
        ensures
            final(self).output_spec() == Some(response),
            final(self).metadata_spec() == old(self).metadata_spec(),
            final(self).input_spec() == old(self).input_spec(),
    {
        self.output = Some(response);
    }

    /// The output; an error when there is none.
    pub fn output(&self) -> (r: Result<&O, ExchangeError>)
        ensures
            match self.output_spec() {
                Some(o) => r == Ok::<&O, ExchangeError>(&o),
                None => r matches Err(e) && e@ == ErrorView::OutputRead("No output available"@),
            },
    {
        match &self.output {
            Some(o) => Ok(o),
            None => Err(ExchangeError::OutputReadError("No output available".to_owned())),
        }
    }

    /// Mutable access to the output; an error when there is none.
    pub fn output_mut(&mut self) -> (r: Result<&mut O, ExchangeError>)
        ensures
            match old(self).output_spec() {
                Some(o) => r matches Ok(v) && *v == o && final(self).output_spec() == Some(*final(v)),
                None => r matches Err(e) && e@ == ErrorView::OutputRead("No output available"@)
                    && final(self).output_spec() is None,
            },
            final(self).metadata_spec() == old(self).metadata_spec(),
            final(self).input_spec() == old(self).input_spec(),
    {
        match &mut self.output {
            Some(o) => Ok(o),
            None => Err(ExchangeError::OutputReadError("No output available".to_owned())),
        }
    }

    /// Takes the output out, once the output listeners have run on it; with
    /// no output the listeners cannot run, which is an error.
    pub fn take_output(&mut self) -> (r: Result<O, ExchangeError>)
        ensures
            match old(self).output_spec() {
                Some(o) => r == Ok::<O, ExchangeError>(o),
                None => r matches Err(e) && e@ == ErrorView::OutputCallback("Output callback failed"@),
            },
            final(self).output_spec() is None,
            final(self).metadata_spec() == old(self).metadata_spec(),
            final(self).input_spec() == old(self).input_spec(),
    {
        match self.output.take() {
            Some(o) => Ok(o),
            None => Err(ExchangeError::OutputCallbackError("Output callback failed".to_owned())),
        }
    }
}

} // verus!
