//! The runtime model: the per-aggregate event log and the registry of live
//! order actors.
//!
//! The registry maps an order's identity to at most one live actor (a map
//! can hold only one entry per key). `employ` is the committed apply step:
//! validate the command into an event, append the event to the log, publish
//! it, fold it into the in-memory state, and — when the event is terminal —
//! remove the actor from the registry. Commands to the same actor are
//! serialized (a single mailbox); the sequential model here is that order.
//! The table half of the runtime, under the same contracts, lives in the
//! `table` submodule.

pub mod table;

use vstd::prelude::*;

use std::collections::HashMap;

use crate::entities::order::{
    order_apply_view, order_event_of, order_replay_state, order_terminal, valid_order_history,
    Order, OrderId, OrderView,
};
use crate::entities::Directive;
use crate::errors::ApplicationError;
use crate::io::command::OrderCommand;
use crate::io::event::OrderEvent;

verus! {

broadcast use vstd::std_specs::hash::group_hash_axioms;

/// Append-only event store, one ordered log per aggregate identity, with
/// the per-aggregate stream publish channel modeled alongside it as ghost
/// state. Sequence numbers start at 1 and are gapless: the record at
/// position `i` of a log carries sequence number `i + 1`. Each append
/// emits the appended event on the aggregate's channel, so a channel
/// carries its aggregate's events in log order.
pub struct EventLog {
    logs: HashMap<u128, Vec<OrderEvent>>,
    published: Ghost<Map<u128, Seq<OrderEvent>>>,
}

impl EventLog {
    /// The recorded history of aggregate `id`, oldest first; empty when
    /// nothing was ever appended for `id`.
    pub closed spec fn log_of(&self, id: u128) -> Seq<OrderEvent> {
        if self.logs@.contains_key(id) {
            self.logs@[id]@
        } else {
            Seq::empty()
        }
    }

    /// The events emitted so far on the publish channel keyed by `id`.
    pub closed spec fn stream_of(&self, id: u128) -> Seq<OrderEvent> {
        if self.published@.contains_key(id) {
            self.published@[id]
        } else {
            Seq::empty()
        }
    }

    /// Every publish channel carries exactly its aggregate's recorded
    /// history, in log order: each durable append was followed by the
    /// emission of the same event on the aggregate's channel.
    pub open spec fn streams_match(&self) -> bool {
        forall|a: u128| #[trigger] self.stream_of(a) == self.log_of(a)
    }

    pub fn new() -> (r: EventLog)
        ensures
            forall|a: u128| #[trigger] r.log_of(a) == Seq::<OrderEvent>::empty(),
            forall|a: u128| #[trigger] r.stream_of(a) == Seq::<OrderEvent>::empty(),
            r.streams_match(),
    {
        EventLog { logs: HashMap::new(), published: Ghost(Map::empty()) }
    }

    /// Durably append one event to the log of `id`, then emit the same
    /// event on the channel of `id`.
    pub fn append(&mut self, id: u128, event: OrderEvent)
        ensures
            final(self).log_of(id) == old(self).log_of(id).push(event),
            final(self).stream_of(id) == old(self).stream_of(id).push(event),
            forall|a: u128|
                a != id ==> #[trigger] final(self).log_of(a) == old(self).log_of(a),
            forall|a: u128|
                a != id ==> #[trigger] final(self).stream_of(a) == old(self).stream_of(a),
            old(self).streams_match() ==> final(self).streams_match(),
    {
        let mut events: Vec<OrderEvent> = match self.logs.remove(&id) {
            Some(v) => v,
            None => Vec::new(),
        };
        events.push(event);
        self.logs.insert(id, events);
        let ghost emitted = self.published@.insert(id, old(self).stream_of(id).push(event));
        proof {
            self.published@ = emitted;
            assert(self.log_of(id) =~= old(self).log_of(id).push(event));
            if old(self).streams_match() {
                assert forall|a: u128| #[trigger] self.stream_of(a) == self.log_of(a) by {
                    if a != id {
                        assert(old(self).stream_of(a) == old(self).log_of(a));
                    }
                }
            }
        }
    }

    /// How many events are recorded for `id`.
    pub fn len_of(&self, id: u128) -> (n: usize)
        ensures
            n == self.log_of(id).len(),
    {
        match self.logs.get(&id) {
            Some(v) => v.len(),
            None => 0,
        }
    }

    /// The recorded history of `id`, if any event was ever appended.
    pub fn events(&self, id: u128) -> (r: Option<&Vec<OrderEvent>>)
        ensures
            match r {
                Some(v) => v@ == self.log_of(id),
                None => self.log_of(id) == Seq::<OrderEvent>::empty(),
            },
    {
        self.logs.get(&id)
    }

    /// The record at position `i` of the log of `id`.
    pub fn event_at(&self, id: u128, i: usize) -> (r: Option<&OrderEvent>)
        ensures
            i < self.log_of(id).len() ==> (r matches Some(e) && *e == self.log_of(id)[i as int]),
            i >= self.log_of(id).len() ==> r is None,
    {
        match self.logs.get(&id) {
            Some(v) => if i < v.len() {
                Some(&v[i])
            } else {
                None
            },
            None => None,
        }
    }
}

/// A handle addressing one live order actor.
#[derive(Debug, Clone, Copy, PartialEq, Eq, Structural)]
pub struct OrderRef {
    pub(crate) id: OrderId,
}

impl View for OrderRef {
    type V = u128;

    closed spec fn view(&self) -> u128 {
        self.id@
    }
}

impl OrderRef {
    pub fn id(&self) -> (r: OrderId)
        ensures
            r@ == self@,
    {
        self.id
    }
}

struct OrderActor {
    state: Order,
    version: u64,
}

/// Registry of live order actors: at most one per identity, each holding
/// the order's in-memory state and its version (the sequence number of the
/// last event folded into that state).
pub struct ProcessManager {
    actors: HashMap<u128, OrderActor>,
}

/// The two registries hold exactly the same live actors.
pub open spec fn same_actors(a: ProcessManager, b: ProcessManager) -> bool {
    forall|k: u128|
        #![trigger a.has(k)]
        #![trigger b.has(k)]
        b.has(k) == a.has(k) && (a.has(k) ==> b.state_of(k) == a.state_of(k) && b.version_of(k)
            == a.version_of(k))
}

/// The two registries agree on every identity other than `id`.
pub open spec fn same_actors_except(a: ProcessManager, b: ProcessManager, id: u128) -> bool {
    forall|k: u128|
        #![trigger a.has(k)]
        #![trigger b.has(k)]
        k != id ==> b.has(k) == a.has(k) && (a.has(k) ==> b.state_of(k) == a.state_of(k)
            && b.version_of(k) == a.version_of(k))
}

/// The two stores hold exactly the same histories and streams.
pub open spec fn logs_unchanged(a: EventLog, b: EventLog) -> bool {
    forall|k: u128|
        #![trigger a.log_of(k)]
        #![trigger b.log_of(k)]
        b.log_of(k) == a.log_of(k) && b.stream_of(k) == a.stream_of(k)
}

/// The two stores agree on every history and stream other than those of
/// `id`.
pub open spec fn logs_unchanged_except(a: EventLog, b: EventLog, id: u128) -> bool {
    forall|k: u128|
        #![trigger a.log_of(k)]
        #![trigger b.log_of(k)]
        k != id ==> b.log_of(k) == a.log_of(k) && b.stream_of(k) == a.stream_of(k)
}

/// Live state agrees with recorded history: every live actor's state is
/// exactly what replaying its log reproduces, its version is the log's
/// length, and the log of a live actor is a valid (terminal-free) history.
pub open spec fn consistent(m: ProcessManager, j: EventLog) -> bool {
    forall|a: u128| #[trigger]
        m.has(a) ==> valid_order_history(a, j.log_of(a)) && m.state_of(a) == order_replay_state(
            j.log_of(a),
        ) && m.version_of(a) as int == j.log_of(a).len()
}

impl ProcessManager {
    /// Whether an actor for `id` is live.
    pub closed spec fn has(&self, id: u128) -> bool {
        self.actors@.contains_key(id)
    }

    /// The live actor's in-memory state. Meaningful when `has(id)`.
    pub closed spec fn state_of(&self, id: u128) -> OrderView {
        self.actors@[id].state@
    }

    /// The live actor's version. Meaningful when `has(id)`.
    pub closed spec fn version_of(&self, id: u128) -> u64 {
        self.actors@[id].version
    }

    /// Every live actor is registered under its own identity.
    pub open spec fn wf(&self) -> bool {
        forall|a: u128| #[trigger] self.has(a) ==> self.state_of(a).id == a
    }

    pub fn new() -> (r: ProcessManager)
        ensures
            r.wf(),
            forall|a: u128| !(#[trigger] r.has(a)),
    {
        ProcessManager { actors: HashMap::new() }
    }

    /// Non-mutating lookup of a live actor.
    pub fn find(&self, id: OrderId) -> (r: Option<OrderRef>)
        ensures
            match r {
                Some(h) => self.has(id@) && h@ == id@,
                None => !self.has(id@),
            },
    {
        if self.actors.contains_key(&id.0) {
            Some(OrderRef { id })
        } else {
            None
        }
    }

    /// Reserve-or-attach insertion: seed a new live actor for `id`, or —
    /// when a racing caller already spawned one — attach to the winner's
    /// actor instead of creating a duplicate.
    pub fn spawn(&mut self, id: OrderId, state: Order, version: u64) -> (r: OrderRef)
        requires
            old(self).wf(),
            state@.id == id@,
        ensures
            final(self).wf(),
            r@ == id@,
            final(self).has(id@),
            !old(self).has(id@) ==> final(self).state_of(id@) == state@ && final(self).version_of(
                id@,
            ) == version,
            old(self).has(id@) ==> same_actors(*old(self), *final(self)),
            same_actors_except(*old(self), *final(self), id@),
    {
        if self.actors.contains_key(&id.0) {
            OrderRef { id }
        } else {
            self.actors.insert(id.0, OrderActor { state, version });
            proof {
                assert forall|a: u128| self.has(a) implies self.state_of(a).id == a by {
                    if a != id@ {
                        assert(old(self).has(a));
                    }
                }
            }
            OrderRef { id }
        }
    }

    /// The in-memory state of the live actor for `id`, if one is live.
    pub fn current_state(&self, id: OrderId) -> (r: Option<&Order>)
        ensures
            match r {
                Some(o) => self.has(id@) && o@ == self.state_of(id@),
                None => !self.has(id@),
            },
    {
        match self.actors.get(&id.0) {
            Some(actor) => Some(&actor.state),
            None => None,
        }
    }

    /// The version of the live actor for `id`, if one is live.
    pub fn current_version(&self, id: OrderId) -> (r: Option<u64>)
        ensures
            match r {
                Some(v) => self.has(id@) && v == self.version_of(id@),
                None => !self.has(id@),
            },
    {
        match self.actors.get(&id.0) {
            Some(actor) => Some(actor.version),
            None => None,
        }
    }

    /// Deliver one command to the addressed actor: the committed apply
    /// step. The actor's validate step turns the command into an event;
    /// the event is appended to the aggregate's log, published on the
    /// aggregate's stream, folded into the in-memory state, and — when
    /// terminal — the actor is removed from the registry, all as one
    /// logical unit. A command the validate step rejects (a creation
    /// command reaching a live actor) fails with `Kernel` before any state
    /// mutation; a command delivered to a handle whose actor is no longer
    /// live fails with `Process`. Both failures change nothing.
    pub fn employ(&mut self, journal: &mut EventLog, handle: &OrderRef, command: OrderCommand)
        -> (r: Result<(), ApplicationError>)
        requires
            old(self).wf(),
        ensures
            final(self).wf(),
            old(journal).streams_match() ==> final(journal).streams_match(),
            !old(self).has(handle@) ==> {
                &&& r == Err::<(), ApplicationError>(ApplicationError::Process)
                &&& same_actors(*old(self), *final(self))
                &&& logs_unchanged(*old(journal), *final(journal))
            },
            old(self).has(handle@) && command is Create ==> {
                &&& r == Err::<(), ApplicationError>(ApplicationError::Kernel)
                &&& same_actors(*old(self), *final(self))
                &&& logs_unchanged(*old(journal), *final(journal))
            },
            old(self).has(handle@) && !(command is Create) ==> ({
                let ev = order_event_of(old(self).state_of(handle@), command);
                &&& r == Ok::<(), ApplicationError>(())
                &&& final(journal).log_of(handle@) == old(journal).log_of(handle@).push(ev)
                &&& final(journal).stream_of(handle@) == old(journal).stream_of(handle@).push(ev)
                &&& logs_unchanged_except(*old(journal), *final(journal), handle@)
                &&& order_terminal(ev) ==> !final(self).has(handle@)
                &&& !order_terminal(ev) ==> final(self).has(handle@) && final(self).state_of(
                    handle@,
                ) == order_apply_view(old(self).state_of(handle@), ev) && final(self).version_of(
                    handle@,
                ) as int == old(journal).log_of(handle@).len() + 1
                &&& same_actors_except(*old(self), *final(self), handle@)
            }),
    {
        let key: u128 = handle.id.0;
        match self.actors.remove(&key) {
            None => {
                proof {
                    assert(self.actors@ =~= old(self).actors@);
                    assert forall|a: u128| self.has(a) implies self.state_of(a).id == a by {
                        assert(old(self).has(a));
                    }
                }
                Err(ApplicationError::Process)
            },
            Some(mut actor) => {
                let event = match actor.state.publish(command) {
                    Ok(ev) => ev,
                    Err(_) => {
                        self.actors.insert(key, actor);
                        proof {
                            assert(self.actors@ =~= old(self).actors@);
                            assert forall|a: u128| self.has(a) implies self.state_of(a).id
                                == a by {
                                assert(old(self).has(a));
                            }
                        }
                        return Err(ApplicationError::Kernel);
                    },
                };
                let directive = actor.state.apply(&event);
                journal.append(key, event);
                let n = journal.len_of(key);
                actor.version = n as u64;
                match directive {
                    Directive::Terminate => {
                        proof {
                            assert forall|a: u128| self.has(a) implies self.state_of(a).id
                                == a by {
                                assert(old(self).has(a));
                            }
                        }
                        Ok(())
                    },
                    Directive::Continue => {
                        self.actors.insert(key, actor);
                        proof {
                            let s0 = old(self).state_of(key);
                            assert(order_apply_view(s0, order_event_of(s0, command)).id == s0.id);
                            assert forall|a: u128| self.has(a) implies self.state_of(a).id
                                == a by {
                                if a != key {
                                    assert(old(self).has(a));
                                }
                            }
                        }
                        Ok(())
                    },
                }
            },
        }
    }
}

} // verus!
