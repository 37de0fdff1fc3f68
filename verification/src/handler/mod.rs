//! Handler identities and the outcomes that middleware reports.
pub mod config;
pub mod derive;
pub mod registry;

use vstd::prelude::*;
use crate::ext::{fnv_hash_str, fnv_str_hash};

pub use registry::{HandlerRegistry, HandlerRegistryError, Registry};

verus! {

/// Marker for values that can be registered as handlers.
pub trait LabeledHandler {}

/// What a middleware handler asks the chain to do next.
#[derive(Debug, Clone, Copy, PartialEq, Eq, Structural)]
pub enum MiddlewareResponse {
    Continue,
    Break,
}

impl Default for MiddlewareResponse {
    /// A handler continues the chain unless it says otherwise.
    fn default() -> (r: Self)
        ensures
            r == MiddlewareResponse::Continue,
    {
        MiddlewareResponse::Continue
    }
}

/// Identifies a handler by the FNV hash of its name.
#[derive(Debug, Clone, Copy, PartialEq, Eq, Hash, Structural)]
pub struct HandlerId {
    handler_hash: u64,
}

impl View for HandlerId {
    type V = u64;

    closed spec fn view(&self) -> u64 {
        self.handler_hash
    }
}

/// The decimal digit for `d`, between 0 and 9.
pub open spec fn digit_char(d: nat) -> char {
    ('0' as int + d) as char
}

/// The decimal form of `n`: its digits, most significant first, with no
/// leading zeros.
pub open spec fn decimal(n: nat) -> Seq<char>
    decreases n,
{
    if n < 10 {
        seq![digit_char(n)]
    } else {
        decimal(n / 10).push(digit_char(n % 10))
    }
}

/// The one-character text of the digit `d`.
fn digit_text(d: u64) -> (r: &'static str)
    requires
        d < 10,
    ensures
        r@ == seq![digit_char(d as nat)],
{
    proof {
        reveal_strlit("0");
        reveal_strlit("1");
        reveal_strlit("2");
        reveal_strlit("3");
        reveal_strlit("4");
        reveal_strlit("5");
        reveal_strlit("6");
        reveal_strlit("7");
        reveal_strlit("8");
        reveal_strlit("9");
    }
    if d == 0 {
        "0"
    } else if d == 1 {
        "1"
    } else if d == 2 {
        "2"
    } else if d == 3 {
        "3"
    } else if d == 4 {
        "4"
    } else if d == 5 {
        "5"
    } else if d == 6 {
        "6"
    } else if d == 7 {
        "7"
    } else if d == 8 {
        "8"
    } else {
        "9"
    }
}

/// Appends the decimal form of `n` to `s`.
pub(crate) fn push_decimal(s: &mut String, n: u64)
    ensures
        final(s)@ == old(s)@ + decimal(n as nat),
    decreases n,
{
    if n >= 10 {
        push_decimal(s, n / 10);
    }
    s.push_str(digit_text(n % 10));
    proof {
        if n >= 10 {
            assert(decimal(n as nat) == decimal((n / 10) as nat).push(digit_char((n % 10) as nat)));
        }
    }
}

/// The identity of the handler named `name`.
pub open spec fn handler_id_of(name: Seq<char>) -> u64 {
    fnv_str_hash(name)
}

impl HandlerId {
    /// The identity of the handler named `name`.
    pub closed spec fn named(name: Seq<char>) -> HandlerId {
        HandlerId { handler_hash: handler_id_of(name) }
    }

    /// The identity of the handler named `id`.
    pub fn new(id: &str) -> (h: Self)
        ensures
            h@ == handler_id_of(id@),
            h == HandlerId::named(id@),
    {
        HandlerId { handler_hash: fnv_hash_str(id) }
    }

    /// The text displayed for the identity: its hash in decimal.
    pub fn to_text(&self) -> (r: String)
        ensures
            r@ == decimal(self@ as nat),
    {
        let mut r = String::new();
        push_decimal(&mut r, self.handler_hash);
        r
    }

    /// The hash this identity carries.
    pub fn hash_value(&self) -> (h: u64)
        ensures
            h == self@,
    {
        self.handler_hash
    }
}

impl<'a> From<&'a str> for HandlerId {
    fn from(value: &'a str) -> (r: Self) {
        HandlerId::new(value)
    }
}

impl<'a> vstd::std_specs::convert::FromSpecImpl<&'a str> for HandlerId {
    open spec fn obeys_from_spec() -> bool {
        true
    }

    open spec fn from_spec(v: &'a str) -> Self {
        HandlerId::named(v@)
    }
}

} // verus!
