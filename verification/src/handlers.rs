//! Tables of handlers for what clients send.
use std::collections::HashMap;
use vstd::prelude::*;

verus! {

broadcast use vstd::std_specs::hash::group_hash_axioms;

/// A handler and its name.
pub struct Handler<H> {
    pub name: String,
    pub handler: H,
}

/// Handlers by their ids.
pub struct HandlerTable<H> {
    handlers: HashMap<u32, Handler<H>>,
}

impl<H> View for HandlerTable<H> {
    type V = Map<u32, Handler<H>>;

    closed spec fn view(&self) -> Map<u32, Handler<H>> {
        self.handlers@
    }
}

impl<H> HandlerTable<H> {
    /// A table without handlers.
    pub fn new() -> (r: HandlerTable<H>)
        ensures
            r@ == Map::<u32, Handler<H>>::empty(),
    {
        HandlerTable { handlers: HashMap::new() }
    }

    /// Sets the handler for an id.
    pub fn register(&mut self, id: u32, handler: Handler<H>)
        ensures
            final(self)@ == old(self)@.insert(id, handler),
    {
        self.handlers.insert(id, handler);
    }

    /// The handler for an id.
    pub fn get(&self, id: u32) -> (r: Option<&Handler<H>>)
        ensures
            match r {
                Some(handler) => self@.contains_key(id) && *handler == self@[id],
                None => !self@.contains_key(id),
            },
    {
        self.handlers.get(&id)
    }
}

} // verus!
