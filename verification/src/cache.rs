//! A cache of file contents by name, shared through `Arc`s.
use vstd::prelude::*;
use std::sync::Arc;
use dashmap::DashMap;
use fnv::FnvBuildHasher;
use crate::ext::{arc_share, file_entries, files_get, files_insert, files_new};

verus! {

broadcast use vstd::string::group_string_axioms;

/// Errors of a cache, made from a message.
pub trait CacheError: Sized {
    fn handle(msg: &str) -> Self;
}

/// Why the file cache could not serve a request.
#[derive(Debug)]
pub struct FileCacheError {
    message: String,
}

impl FileCacheError {
    /// The message of the error.
    pub closed spec fn message_spec(&self) -> Seq<char> {
        self.message@
    }

    /// The text displayed for the error: its message.
    pub fn to_text(&self) -> (r: String)
        ensures
            r@ == self.message_spec(),
    {
        self.message.clone()
    }

    /// An error with `msg` as its message.
    pub fn with_message(msg: &str) -> (e: Self)
        ensures
            e.message_spec() == msg@,
    {
        FileCacheError { message: msg.to_owned() }
    }
}

impl CacheError for FileCacheError {
    fn handle(msg: &str) -> (e: Self)
        ensures
            e.message_spec() == msg@,
    {
        FileCacheError::with_message(msg)
    }
}

/// File contents by file name.
pub struct FileCache {
    files: DashMap<String, Arc<String>, FnvBuildHasher>,
}

impl FileCache {
    /// The contents held, by file name.
    pub closed spec fn entries(&self) -> Map<Seq<char>, Arc<String>> {
        file_entries(self.files)
    }

    /// An empty cache.
    pub fn new() -> (c: Self)
        ensures
            c.entries().dom().is_empty(),
    {
        FileCache { files: files_new() }
    }

    /// The name of the cache.
    pub fn cache_id(&self) -> (r: &'static str)
        ensures
            r@ == "FileCache"@,
    {
        "FileCache"
    }

    /// The contents cached under `key`; an error when there are none.
    pub fn get(&self, key: &str) -> (r: Result<Arc<String>, FileCacheError>)
        ensures
            match r {
                Ok(v) => self.entries().dom().contains(key@) && v == self.entries()[key@],
                Err(e) => !self.entries().dom().contains(key@) && e.message_spec() == "Key not found"@,
            },
    {
        match files_get(&self.files, key) {
            Some(v) => Ok(v),
            None => Err(FileCacheError::handle("Key not found")),
        }
    }

    /// Caches what was resolved for `key`: a value is stored and handed
    /// back; an error is handed back and nothing changes.
    pub fn store_resolved(&mut self, key: String, resolved: Result<String, FileCacheError>) -> (r: Result<Arc<String>, FileCacheError>)
        ensures
            match resolved {
                Ok(s) => (r matches Ok(v) && *v == s && final(self).entries() == old(self).entries().insert(key@, v)),
                Err(e) => r == Err::<Arc<String>, FileCacheError>(e) && final(self).entries() == old(self).entries(),
            },
    {
        match resolved {
            Ok(value) => {
                let value = Arc::new(value);
                files_insert(&mut self.files, key, arc_share(&value));
                Ok(value)
            },
            Err(e) => Err(e),
        }
    }

    /// The contents cached under `key`, or, when there are none, what
    /// `resolver` gives, which is then cached.
    pub fn get_or_resolve<F: FnOnce() -> Result<String, FileCacheError>>(&mut self, key: &str, resolver: F) -> (r: Result<Arc<String>, FileCacheError>)
        requires
            resolver.requires(()),
        ensures
            old(self).entries().dom().contains(key@) ==> r == Ok::<Arc<String>, FileCacheError>(old(self).entries()[key@])
                && final(self).entries() == old(self).entries(),
            !old(self).entries().dom().contains(key@) ==> exists|resolved: Result<String, FileCacheError>| {
                &&& resolver.ensures((), resolved)
                &&& match resolved {
                    Ok(s) => (r matches Ok(v) && *v == s && final(self).entries() == old(self).entries().insert(key@, v)),
                    Err(e) => r == Err::<Arc<String>, FileCacheError>(e) && final(self).entries() == old(self).entries(),
                }
            },
    {
        match files_get(&self.files, key) {
            Some(v) => Ok(v),
            None => {
                let resolved = resolver();
                self.store_resolved(key.to_owned(), resolved)
            },
        }
    }

    /// Caches `value` under `key`, replacing what was cached there.
    pub fn replace(&mut self, key: String, value: String)
        ensures
            exists|v: Arc<String>| *v == value && final(self).entries() == old(self).entries().insert(key@, v),
    {
        let v = Arc::new(value);
        let ghost w = v;
        files_insert(&mut self.files, key, v);
        assert(*w == value && self.entries() == old(self).entries().insert(key@, w));
    }

    /// Caches `value` under `key`; an error when `key` is already cached.
    pub fn init(&mut self, key: &str, value: String) -> (r: Result<(), FileCacheError>)
        ensures
            old(self).entries().dom().contains(key@) ==> (r matches Err(e) && e.message_spec() == "Key already exists"@
                && final(self).entries() == old(self).entries()),
            !old(self).entries().dom().contains(key@) ==> r is Ok && exists|v: Arc<String>|
                *v == value && final(self).entries() == old(self).entries().insert(key@, v),
    {
        match files_get(&self.files, key) {
            Some(_) => Err(FileCacheError::handle("Key already exists")),
            None => {
                let v = Arc::new(value);
                files_insert(&mut self.files, key.to_owned(), v);
                Ok(())
            },
        }
    }
}

} // verus!
