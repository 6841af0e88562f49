use vstd::prelude::*;
use crate::query_types::NameQuery;
use crate::result_cache::{distinct_keys, spec_notify, spec_subscribe, EntryModel, ResultCache};

verus! {

/// A message to the resolution engine's single worker: a caller's query with
/// its completion handle, or a finished resolution reporting its result.
pub enum ActorMessage<W> {
    Query { name_query: NameQuery, responder: W },
    Notify { name_query: NameQuery, result: Option<[u8; 4]> },
}

/// What the worker asks its surroundings to do after one message.
pub enum ActorAction<W> {
    /// Launch exactly one resolution task for this key.
    Launch { name_query: NameQuery },
    /// The caller joined the key's pending entry; nothing to launch.
    Wait,
    /// Deliver `result` to each of these waiters exactly once, in order.
    Deliver { waiters: Vec<W>, result: Option<[u8; 4]> },
}

/// A counter step that wraps at the top instead of overflowing.
pub open spec fn wrap_inc(c: u64) -> u64 {
    if c == u64::MAX {
        0
    } else {
        (c + 1) as u64
    }
}

/// The worker's state: the in-flight lookup table and a request counter kept
/// for diagnostics.
pub struct Actor<W> {
    result_cache: ResultCache<W>,
    counter: u64,
}

impl<W> Actor<W> {
    /// The in-flight lookup table.
    pub closed spec fn cache(&self) -> Seq<EntryModel<W>> {
        self.result_cache@
    }

    /// How many queries the worker has seen.
    pub closed spec fn counter(&self) -> u64 {
        self.counter
    }

    /// At most one pending entry for each key.
    pub open spec fn wf(&self) -> bool {
        distinct_keys(self.cache())
    }

    pub fn new() -> (a: Self)
        ensures
            a.cache() == Seq::<EntryModel<W>>::empty(),
            a.counter() == 0,
            a.wf(),
    {
        Self { result_cache: ResultCache::new(), counter: 0 }
    }

    /// Handles one inbound message and says what must happen next. A query
    /// either launches the single resolution task for its key or joins the
    /// key's pending entry; a completion drains the entry and asks that
    /// every waiter receive the result exactly once.
    pub fn handle_message(&mut self, msg: ActorMessage<W>) -> (a: ActorAction<W>)
        requires
            old(self).wf(),
        ensures
            final(self).wf(),
            match msg {
                ActorMessage::Query { name_query, responder } => {
                    &&& final(self).counter() == wrap_inc(old(self).counter())
                    &&& final(self).cache() == spec_subscribe(
                        old(self).cache(),
                        name_query@,
                        responder,
                    ).0
                    &&& a == (if spec_subscribe(old(self).cache(), name_query@, responder).1 {
                        ActorAction::<W>::Launch { name_query }
                    } else {
                        ActorAction::<W>::Wait
                    })
                },
                ActorMessage::Notify { name_query, result } => {
                    &&& final(self).counter() == old(self).counter()
                    &&& final(self).cache() == spec_notify(old(self).cache(), name_query@).0
                    &&& a matches ActorAction::Deliver { waiters, result: delivered }
                        && waiters@ == spec_notify(old(self).cache(), name_query@).1 && delivered
                        == result
                },
            },
    {
        match msg {
            ActorMessage::Query { name_query, responder } => {
                self.counter = if self.counter == u64::MAX {
                    0
                } else {
                    self.counter + 1
                };
                let dup = name_query.duplicate();
                let launch = self.result_cache.subscribe(dup, responder);
                if launch {
                    ActorAction::Launch { name_query }
                } else {
                    ActorAction::Wait
                }
            },
            ActorMessage::Notify { name_query, result } => {
                let waiters = self.result_cache.notify(&name_query);
                ActorAction::Deliver { waiters, result }
            },
        }
    }
}

} // verus!
