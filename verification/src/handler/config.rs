//! Names of handler chains, and the executables that a route lists: a
//! handler, or a chain of handlers.
use vstd::prelude::*;
use crate::ext::{fnv_hash_str, fnv_str_hash};
use crate::handler::{HandlerId, handler_id_of};

verus! {

broadcast use vstd::string::group_string_axioms;

/// Identifies a chain of handlers by the FNV hash of its name.
#[derive(Debug, Clone, Copy, PartialEq, Eq, Hash, Structural)]
pub struct ChainId {
    chain_hash: u64,
}

impl View for ChainId {
    type V = u64;

    closed spec fn view(&self) -> u64 {
        self.chain_hash
    }
}

impl ChainId {
    /// The identity of the chain named `id`.
    pub fn new(id: &str) -> (c: Self)
        ensures
            c@ == fnv_str_hash(id@),
    {
        ChainId { chain_hash: fnv_hash_str(id) }
    }
}

/// An executable by view: the hash of a handler or of a chain.
pub ghost enum ExecRef {
    Handler(u64),
    Chain(u64),
}

/// What a route runs: a handler, or a chain of handlers.
#[derive(PartialEq, Debug, Clone, Copy, Structural)]
pub enum Executable {
    Handler(HandlerId),
    Chain(ChainId),
}

impl View for Executable {
    type V = ExecRef;

    open spec fn view(&self) -> ExecRef {
        match self {
            Executable::Handler(h) => ExecRef::Handler(h@),
            Executable::Chain(c) => ExecRef::Chain(c@),
        }
    }
}

/// The executable that the text `s` names: a chain when it starts with
/// `@`, a handler otherwise, either identified by the hash of `s`.
pub open spec fn exec_ref_of(s: Seq<char>) -> ExecRef {
    if s.len() > 0 && s[0] == '@' {
        ExecRef::Chain(fnv_str_hash(s))
    } else {
        ExecRef::Handler(handler_id_of(s))
    }
}

impl Executable {
    /// Parses an executable name.
    pub fn from_str(s: &str) -> (r: Self)
        ensures
            r@ == exec_ref_of(s@),
    {
        let n = s.unicode_len();
        if n > 0 && s.get_char(0) == '@' {
            Executable::Chain(ChainId::new(s))
        } else {
            Executable::Handler(HandlerId::new(s))
        }
    }
}

} // verus!
