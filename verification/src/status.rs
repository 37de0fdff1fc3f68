//! The state that a handler reports for an exchange, with an optional
//! message and details.
use vstd::prelude::*;

verus! {

/// Where an exchange stands.
#[derive(Clone, Copy, Debug, Eq, PartialEq, Structural)]
pub enum ExchangeState {
    LIVE,
    COMPLETED,
    ERROR,
}

impl ExchangeState {
    /// The name of the state, as it is displayed.
    pub fn to_text(&self) -> (r: String)
        ensures
            r@ == (match *self {
                ExchangeState::LIVE => "LIVE"@,
                ExchangeState::COMPLETED => "COMPLETED"@,
                ExchangeState::ERROR => "ERROR"@,
            }),
    {
        match self {
            ExchangeState::LIVE => "LIVE".to_owned(),
            ExchangeState::COMPLETED => "COMPLETED".to_owned(),
            ExchangeState::ERROR => "ERROR".to_owned(),
        }
    }
}

/// A handler status, by view.
pub ghost struct HandlerStatusView {
    pub state: ExchangeState,
    pub message: Option<Seq<char>>,
    pub details: Option<Seq<char>>,
}

/// The status a handler reports: a state, and text that explains it.
#[derive(Debug)]
pub struct HandlerStatus {
    pub(crate) state: ExchangeState,
    pub(crate) message: Option<String>,
    pub(crate) details: Option<String>,
}

/// The view of an optional string.
pub open spec fn opt_text(s: Option<String>) -> Option<Seq<char>> {
    match s {
        Some(t) => Some(t@),
        None => None,
    }
}

impl View for HandlerStatus {
    type V = HandlerStatusView;

    closed spec fn view(&self) -> HandlerStatusView {
        HandlerStatusView {
            state: self.state,
            message: opt_text(self.message),
            details: opt_text(self.details),
        }
    }
}

impl HandlerStatus {
    /// The state reported.
    pub fn state(&self) -> (s: ExchangeState)
        ensures
            s == self@.state,
    {
        self.state
    }

    /// A status in `state`, with no message and no details.
    pub fn new(state: ExchangeState) -> (r: HandlerStatus)
        ensures
            r@ == (HandlerStatusView { state, message: None, details: None }),
    {
        Self { state, message: None, details: None }
    }

    /// The same status with `message` as its message.
    pub fn message(self, message: &str) -> (r: HandlerStatus)
        ensures
            r@ == (HandlerStatusView { message: Some(message@), ..self@ }),
    {
        HandlerStatus { state: self.state, message: Some(message.to_owned()), details: self.details }
    }

    /// The same status with `details` as its details.
    pub fn details(self, details: &str) -> (r: HandlerStatus)
        ensures
            r@ == (HandlerStatusView { details: Some(details@), ..self@ }),
    {
        HandlerStatus { state: self.state, message: self.message, details: Some(details.to_owned()) }
    }

    /// The message, if one was set.
    pub fn message_text(&self) -> (r: Option<String>)
        ensures
            opt_text(r) == self@.message,
    {
        match &self.message {
            Some(m) => Some(m.clone()),
            None => None,
        }
    }

    /// The details, if they were set.
    pub fn details_text(&self) -> (r: Option<String>)
        ensures
            opt_text(r) == self@.details,
    {
        match &self.details {
            Some(d) => Some(d.clone()),
            None => None,
        }
    }
}

} // verus!
