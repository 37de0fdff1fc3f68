//! Errors of an exchange, and the keys that attachments are stored under.
//! An exchange is identified by the 128-bit value of its UUID.
pub mod flow;
pub mod stream;

use vstd::prelude::*;
use std::any::TypeId;
use crate::ext::{fnv_hash_str, fnv_hash_type_id, fnv_str_hash, uuid_hyphenated, uuid_text};

verus! {

/// Why an operation on an exchange failed.
#[derive(Debug)]
pub enum ExchangeError {
    Completed { uuid: u128 },
    Read { uuid: u128, message: String },
    Take { uuid: u128, message: String },
    Callback { uuid: u128, message: String },
}

impl ExchangeError {
    /// The exchange `uuid` has already been completed.
    pub fn exchange_completed(uuid: u128) -> (e: Self)
        ensures
            e == (ExchangeError::Completed { uuid }),
    {
        ExchangeError::Completed { uuid }
    }

    /// Reading from the exchange `uuid` failed.
    pub fn read_error(uuid: u128, msg: &str) -> (e: Self)
        ensures
            e matches ExchangeError::Read { uuid: u, message } && u == uuid && message@ == msg@,
    {
        ExchangeError::Read { uuid, message: msg.to_owned() }
    }

    /// Taking from the exchange `uuid` failed.
    pub fn take_error(uuid: u128, msg: &str) -> (e: Self)
        ensures
            e matches ExchangeError::Take { uuid: u, message } && u == uuid && message@ == msg@,
    {
        ExchangeError::Take { uuid, message: msg.to_owned() }
    }

    /// A callback of the exchange `uuid` failed.
    pub fn callback_error(uuid: u128, msg: &str) -> (e: Self)
        ensures
            e matches ExchangeError::Callback { uuid: u, message } && u == uuid && message@ == msg@,
    {
        ExchangeError::Callback { uuid, message: msg.to_owned() }
    }

    /// The text displayed for the error.
    pub fn to_text(&self) -> (r: String)
        ensures
            r@ == (match self {
                ExchangeError::Completed { uuid } =>
                    "Exchange '"@ + uuid_hyphenated(*uuid) + "' has already been completed"@,
                ExchangeError::Read { uuid, message } =>
                    "Read error occurred for exchange '"@ + uuid_hyphenated(*uuid) + "'. "@ + message@,
                ExchangeError::Take { uuid, message } =>
                    "Take error occurred for exchange '"@ + uuid_hyphenated(*uuid) + "'. "@ + message@,
                ExchangeError::Callback { uuid, message } =>
                    "Callback error occurred for exchange '"@ + uuid_hyphenated(*uuid) + "'. "@ + message@,
            }),
    {
        match self {
            ExchangeError::Completed { uuid } => {
                let mut r = "Exchange '".to_owned();
                r.push_str(uuid_text(*uuid).as_str());
                r.push_str("' has already been completed");
                r
            },
            ExchangeError::Read { uuid, message } => {
                let mut r = "Read error occurred for exchange '".to_owned();
                r.push_str(uuid_text(*uuid).as_str());
                r.push_str("'. ");
                r.push_str(message.as_str());
                r
            },
            ExchangeError::Take { uuid, message } => {
                let mut r = "Take error occurred for exchange '".to_owned();
                r.push_str(uuid_text(*uuid).as_str());
                r.push_str("'. ");
                r.push_str(message.as_str());
                r
            },
            ExchangeError::Callback { uuid, message } => {
                let mut r = "Callback error occurred for exchange '".to_owned();
                r.push_str(uuid_text(*uuid).as_str());
                r.push_str("'. ");
                r.push_str(message.as_str());
                r
            },
        }
    }
}

/// The key an attachment is stored under: the FNV hashes of its name and
/// of its type.
#[derive(Debug, Clone, Copy, PartialEq, Eq, Hash, Structural)]
pub struct AttachmentKey {
    key_hash: u64,
    type_hash: u64,
}

impl View for AttachmentKey {
    type V = (u64, u64);

    closed spec fn view(&self) -> (u64, u64) {
        (self.key_hash, self.type_hash)
    }
}

impl AttachmentKey {
    /// The key of the attachment named `key` of the type `type_id`.
    pub fn new(key: &str, type_id: TypeId) -> (k: Self)
        ensures
            k@.0 == fnv_str_hash(key@),
    {
        let key_hash = fnv_hash_str(key);
        let type_hash = fnv_hash_type_id(&type_id);
        AttachmentKey { key_hash, type_hash }
    }

    /// The hash of the attachment's name.
    pub fn key_hash(&self) -> (h: u64)
        ensures
            h == self@.0,
    {
        self.key_hash
    }

    /// The hash of the attachment's type.
    pub fn type_hash(&self) -> (h: u64)
        ensures
            h == self@.1,
    {
        self.type_hash
    }
}

} // verus!
