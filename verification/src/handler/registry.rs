//! A registry of request, termination and response handlers by identity.
use vstd::prelude::*;
use std::collections::HashSet;
use dashmap::DashMap;
use fnv::FnvBuildHasher;
use crate::ext::{index_contains, index_entries, index_get, index_insert, index_len, index_new};
use crate::handler::{decimal, push_decimal, HandlerId};

verus! {

broadcast use vstd::std_specs::hash::group_hash_axioms;

/// Errors that can occur during handler registry operations.
#[derive(Debug)]
pub enum HandlerRegistryError {
    /// No handler with this identity is registered.
    MissingHandler { handler_id: HandlerId },
    /// A handler with this identity is already registered.
    ConflictingHandlerId { handler_id: HandlerId },
}

impl HandlerRegistryError {
    /// A `MissingHandler` error for `id`.
    pub(crate) fn missing_handler(id: HandlerId) -> (e: Self)
        ensures
            e == (HandlerRegistryError::MissingHandler { handler_id: id }),
    {
        Self::MissingHandler { handler_id: id }
    }

    /// A `ConflictingHandlerId` error for `id`.
    pub(crate) fn conflicting_handler_id(id: HandlerId) -> (e: Self)
        ensures
            e == (HandlerRegistryError::ConflictingHandlerId { handler_id: id }),
    {
        Self::ConflictingHandlerId { handler_id: id }
    }

    /// The text displayed for the error, naming the identity by its hash.
    pub fn to_text(&self) -> (r: String)
        ensures
            r@ == registry_error_text(*self),
    {
        let mut r = "Handler with id '".to_owned();
        match self {
            HandlerRegistryError::MissingHandler { handler_id } => {
                push_decimal(&mut r, handler_id.hash_value());
                r.push_str("' not found.");
            },
            HandlerRegistryError::ConflictingHandlerId { handler_id } => {
                push_decimal(&mut r, handler_id.hash_value());
                r.push_str("' already exists.");
            },
        }
        r
    }
}

/// The text displayed for a registry error.
pub open spec fn registry_error_text(e: HandlerRegistryError) -> Seq<char> {
    match e {
        HandlerRegistryError::MissingHandler { handler_id } =>
            "Handler with id '"@ + decimal(handler_id@ as nat) + "' not found."@,
        HandlerRegistryError::ConflictingHandlerId { handler_id } =>
            "Handler with id '"@ + decimal(handler_id@ as nat) + "' already exists."@,
    }
}

/// A registry of typed items by handler identity, for users that keep their
/// own handler tables.
pub trait Registry<T> {
    /// Retrieves an item by its handler identity.
    fn find_with_id(&self, id: &HandlerId) -> Result<T, HandlerRegistryError>;

    /// Registers a new item under a handler identity.
    fn register_handler(&mut self, handler_id: &HandlerId, handler: T) -> Result<(), HandlerRegistryError>;
}

/// One kind of handler: an index from identity to position, and the
/// handlers by position.
struct HandlerTable<H> {
    index: DashMap<u64, usize, FnvBuildHasher>,
    store: Vec<H>,
}

impl<H> HandlerTable<H> {
    spec fn wf(&self) -> bool {
        &&& index_entries(self.index).dom().finite()
        &&& forall|k: u64| #[trigger] index_entries(self.index).dom().contains(k) ==> index_entries(self.index)[k] < self.store@.len()
    }

    spec fn map(&self) -> Map<u64, H> {
        Map::new(
            |k: u64| index_entries(self.index).dom().contains(k),
            |k: u64| self.store@[index_entries(self.index)[k] as int],
        )
    }

    fn new() -> (t: Self)
        ensures
            t.wf(),
            t.map() == Map::<u64, H>::empty(),
    {
        let t = HandlerTable { index: index_new(), store: Vec::new() };
        assert(t.map() =~= Map::<u64, H>::empty());
        t
    }

    fn get(&self, id: u64) -> (r: Option<&H>)
        requires
            self.wf(),
        ensures
            r.is_some() == self.map().dom().contains(id),
            r matches Some(h) ==> *h == self.map()[id],
    {
        match index_get(&self.index, id) {
            Some(i) => Some(&self.store[i]),
            None => None,
        }
    }

    fn add(&mut self, id: u64, handler: H)
        requires
            old(self).wf(),
            !old(self).map().dom().contains(id),
        ensures
            final(self).wf(),
            final(self).map() == old(self).map().insert(id, handler),
    {
        let pos = self.store.len();
        self.store.push(handler);
        index_insert(&mut self.index, id, pos);
        assert(self.map() =~= old(self).map().insert(id, handler));
    }

    fn contains(&self, id: u64) -> (b: bool)
        ensures
            b == self.map().dom().contains(id),
    {
        index_contains(&self.index, id)
    }

    fn len(&self) -> (n: usize)
        requires
            self.wf(),
        ensures
            n == self.map().dom().len(),
    {
        assert(self.map().dom() =~= index_entries(self.index).dom());
        index_len(&self.index)
    }
}

/// A registry of handler instances with unique identities.
pub struct HandlerRegistry<Q, T, R> {
    /// Identities registered so far, of every kind.
    registered_ids: HashSet<u64>,
    /// Request middleware, which deals with the input data.
    request_handlers: HandlerTable<Q>,
    /// Termination handlers, which turn input data into output data.
    termination_handlers: HandlerTable<T>,
    /// Response middleware, which deals with the output data.
    response_handlers: HandlerTable<R>,
}

impl<Q, T, R> HandlerRegistry<Q, T, R> {
    /// Request handlers by identity.
    pub closed spec fn request_map(&self) -> Map<u64, Q> {
        self.request_handlers.map()
    }

    /// Termination handlers by identity.
    pub closed spec fn termination_map(&self) -> Map<u64, T> {
        self.termination_handlers.map()
    }

    /// Response handlers by identity.
    pub closed spec fn response_map(&self) -> Map<u64, R> {
        self.response_handlers.map()
    }

    /// Identities of every kind registered so far.
    pub open spec fn registered(&self) -> Set<u64> {
        self.request_map().dom() + self.termination_map().dom() + self.response_map().dom()
    }

    pub closed spec fn wf(&self) -> bool {
        &&& self.request_handlers.wf()
        &&& self.termination_handlers.wf()
        &&& self.response_handlers.wf()
        &&& self.registered_ids@ == self.registered()
    }

    /// Creates an empty registry.
    pub fn new() -> (r: Self)
        ensures
            r.wf(),
            r.request_map() == Map::<u64, Q>::empty(),
            r.termination_map() == Map::<u64, T>::empty(),
            r.response_map() == Map::<u64, R>::empty(),
    {
        let r = HandlerRegistry {
            registered_ids: HashSet::new(),
            request_handlers: HandlerTable::new(),
            termination_handlers: HandlerTable::new(),
            response_handlers: HandlerTable::new(),
        };
        assert(r.registered() =~= Set::<u64>::empty());
        r
    }

    /// The request handler registered under `id`, shared.
    pub fn get_request_handler(&self, id: &HandlerId) -> (r: Result<Q, HandlerRegistryError>)
        where
            Q: Clone,
        requires
            self.wf(),
        ensures
            r is Ok == self.request_map().dom().contains(id@),
            r matches Ok(h) ==> cloned(self.request_map()[id@], h),
            r matches Err(e) ==> e == (HandlerRegistryError::MissingHandler { handler_id: *id }),
    {
        match self.request_handlers.get(id.hash_value()) {
            None => Err(HandlerRegistryError::missing_handler(*id)),
            Some(handler) => Ok(handler.clone()),
        }
    }

    /// The response handler registered under `id`, shared.
    pub fn get_response_handler(&self, id: &HandlerId) -> (r: Result<R, HandlerRegistryError>)
        where
            R: Clone,
        requires
            self.wf(),
        ensures
            r is Ok == self.response_map().dom().contains(id@),
            r matches Ok(h) ==> cloned(self.response_map()[id@], h),
            r matches Err(e) ==> e == (HandlerRegistryError::MissingHandler { handler_id: *id }),
    {
        match self.response_handlers.get(id.hash_value()) {
            None => Err(HandlerRegistryError::missing_handler(*id)),
            Some(handler) => Ok(handler.clone()),
        }
    }

    /// The termination handler registered under `id`, shared.
    pub fn get_termination_handler(&self, id: &HandlerId) -> (r: Result<T, HandlerRegistryError>)
        where
            T: Clone,
        requires
            self.wf(),
        ensures
            r is Ok == self.termination_map().dom().contains(id@),
            r matches Ok(h) ==> cloned(self.termination_map()[id@], h),
            r matches Err(e) ==> e == (HandlerRegistryError::MissingHandler { handler_id: *id }),
    {
        match self.termination_handlers.get(id.hash_value()) {
            None => Err(HandlerRegistryError::missing_handler(*id)),
            Some(handler) => Ok(handler.clone()),
        }
    }

    /// Adds `handler` to `table` under `handler_id` unless the identity is
    /// already in `registered_ids`.
    fn register_middleware<H>(
        handler_id: HandlerId,
        handler: H,
        table: &mut HandlerTable<H>,
        registered_ids: &mut HashSet<u64>,
    ) -> (r: Result<(), HandlerRegistryError>)
        requires
            old(table).wf(),
            old(table).map().dom().subset_of(old(registered_ids)@),
        ensures
            final(table).wf(),
            r is Ok == !old(registered_ids)@.contains(handler_id@),
            r matches Err(e) ==> e == (HandlerRegistryError::ConflictingHandlerId { handler_id })
                && *final(table) == *old(table) && *final(registered_ids) == *old(registered_ids),
            r is Ok ==> final(table).map() == old(table).map().insert(handler_id@, handler)
                && final(registered_ids)@ == old(registered_ids)@.insert(handler_id@),
    {
        let id = handler_id.hash_value();
        if registered_ids.contains(&id) {
            return Err(HandlerRegistryError::conflicting_handler_id(handler_id));
        }
        registered_ids.insert(id);
        table.add(id, handler);
        Ok(())
    }

    /// Registers a request handler; an identity that is already registered,
    /// of any kind, is refused and the registry is left unchanged.
    pub fn register_request_handler(&mut self, handler_id: HandlerId, handler: Q) -> (r: Result<(), HandlerRegistryError>)
        requires
            old(self).wf(),
        ensures
            final(self).wf(),
            r is Ok == !old(self).registered().contains(handler_id@),
            r matches Err(e) ==> e == (HandlerRegistryError::ConflictingHandlerId { handler_id })
                && *final(self) == *old(self),
            r is Ok ==> final(self).request_map() == old(self).request_map().insert(handler_id@, handler)
                && final(self).termination_map() == old(self).termination_map()
                && final(self).response_map() == old(self).response_map(),
    {
        let r = Self::register_middleware(handler_id, handler, &mut self.request_handlers, &mut self.registered_ids);
        assert(r is Ok ==> self.registered() =~= old(self).registered().insert(handler_id@));
        r
    }

    /// Registers a response handler; an identity that is already registered,
    /// of any kind, is refused and the registry is left unchanged.
    pub fn register_response_handler(&mut self, handler_id: HandlerId, handler: R) -> (r: Result<(), HandlerRegistryError>)
        requires
            old(self).wf(),
        ensures
            final(self).wf(),
            r is Ok == !old(self).registered().contains(handler_id@),
            r matches Err(e) ==> e == (HandlerRegistryError::ConflictingHandlerId { handler_id })
                && *final(self) == *old(self),
            r is Ok ==> final(self).response_map() == old(self).response_map().insert(handler_id@, handler)
                && final(self).termination_map() == old(self).termination_map()
                && final(self).request_map() == old(self).request_map(),
    {
        let r = Self::register_middleware(handler_id, handler, &mut self.response_handlers, &mut self.registered_ids);
        assert(r is Ok ==> self.registered() =~= old(self).registered().insert(handler_id@));
        r
    }

    /// Registers a termination handler; an identity that is already
    /// registered, of any kind, is refused and the registry is left unchanged.
    pub fn register_termination_handler(&mut self, handler_id: HandlerId, handler: T) -> (r: Result<(), HandlerRegistryError>)
        requires
            old(self).wf(),
        ensures
            final(self).wf(),
            r is Ok == !old(self).registered().contains(handler_id@),
            r matches Err(e) ==> e == (HandlerRegistryError::ConflictingHandlerId { handler_id })
                && *final(self) == *old(self),
            r is Ok ==> final(self).termination_map() == old(self).termination_map().insert(handler_id@, handler)
                && final(self).request_map() == old(self).request_map()
                && final(self).response_map() == old(self).response_map(),
    {
        let id = handler_id.hash_value();
        if self.registered_ids.contains(&id) {
            return Err(HandlerRegistryError::conflicting_handler_id(handler_id));
        }
        self.registered_ids.insert(id);
        self.termination_handlers.add(id, handler);
        assert(self.registered() =~= old(self).registered().insert(handler_id@));
        Ok(())
    }

    /// Number of registered request handlers.
    pub fn request_handler_count(&self) -> (n: usize)
        requires
            self.wf(),
        ensures
            n == self.request_map().dom().len(),
    {
        self.request_handlers.len()
    }

    /// Whether a request handler is registered under `id`.
    pub fn has_request_handler(&self, id: &HandlerId) -> (b: bool)
        ensures
            b == self.request_map().dom().contains(id@),
    {
        self.request_handlers.contains(id.hash_value())
    }
}

/// A request handler registered under an identity is what a lookup of that
/// identity finds afterwards, and registering it changes what no other
/// identity finds.
pub proof fn lemma_registered_handler_found<Q, T, R>(
    before: HandlerRegistry<Q, T, R>,
    after: HandlerRegistry<Q, T, R>,
    id: HandlerId,
    handler: Q,
    other: u64,
)
    requires
        after.request_map() == before.request_map().insert(id@, handler),
    ensures
        after.request_map().dom().contains(id@),
        after.request_map()[id@] == handler,
        other != id@ ==> after.request_map().dom().contains(other) == before.request_map().dom().contains(other),
        other != id@ && before.request_map().dom().contains(other) ==> after.request_map()[other] == before.request_map()[other],
{
}

} // verus!
