//! What a request is routed by, and the errors of turning requests into
//! exchanges.
use vstd::prelude::*;

verus! {

/// The path and method of a request; either may be missing.
pub struct RouteInfo<'a> {
    pub path: Option<&'a str>,
    pub method: Option<&'a str>,
}

impl<'a> RouteInfo<'a> {
    /// Route information with both parts present.
    pub fn new(path: &'a str, method: &'a str) -> (r: Self)
        ensures
            r.path == Some(path),
            r.method == Some(method),
    {
        Self { path: Some(path), method: Some(method) }
    }
}

/// Turns a request into its route information; implemented by users for
/// their request types.
pub trait IntoRouteInfo<'a> {
    fn into_route_info(self) -> RouteInfo<'a>;
}

/// Why an exchange could not be made from a request.
#[derive(Debug)]
pub enum ExchangeFactoryError {
    MissingRouteInfo { message: String },
    InvalidExchange { message: String },
}

impl ExchangeFactoryError {
    /// A `MissingRouteInfo` error with `msg`.
    pub fn missing_route_info(msg: &str) -> (e: Self)
        ensures
            e matches ExchangeFactoryError::MissingRouteInfo { message } && message@ == msg@,
    {
        ExchangeFactoryError::MissingRouteInfo { message: msg.to_owned() }
    }

    /// An `InvalidExchange` error with `msg`.
    pub fn invalid_exchange(msg: &str) -> (e: Self)
        ensures
            e matches ExchangeFactoryError::InvalidExchange { message } && message@ == msg@,
    {
        ExchangeFactoryError::InvalidExchange { message: msg.to_owned() }
    }

    /// The text displayed for the error: its message.
    pub fn to_text(&self) -> (r: String)
        ensures
            r@ == (match self {
                ExchangeFactoryError::MissingRouteInfo { message } => message@,
                ExchangeFactoryError::InvalidExchange { message } => message@,
            }),
    {
        match self {
            ExchangeFactoryError::MissingRouteInfo { message } => message.clone(),
            ExchangeFactoryError::InvalidExchange { message } => message.clone(),
        }
    }
}

} // verus!
