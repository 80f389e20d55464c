//! The table half of the runtime model: the per-table event log and the
//! registry of live table actors, with the same contracts as the order
//! side — durable append plus stream publish per applied event, at most
//! one live actor per identity, and terminal events removing the actor.

use vstd::prelude::*;

use std::collections::HashMap;

use crate::entities::table::{
    table_apply_view, table_event_of, table_replay_state, valid_table_history, Table, TableId,
    TableView,
};
use crate::entities::Directive;
use crate::errors::ApplicationError;
use crate::io::command::TableCommand;
use crate::io::event::TableEvent;

verus! {

broadcast use vstd::std_specs::hash::group_hash_axioms;

/// Append-only event store for table aggregates, one ordered log per
/// identity, with the per-aggregate stream publish channel modeled
/// alongside it as ghost state.
pub struct TableEventLog {
    logs: HashMap<u128, Vec<TableEvent>>,
    published: Ghost<Map<u128, Seq<TableEvent>>>,
}

impl TableEventLog {
    /// The recorded history of table `id`, oldest first; empty when
    /// nothing was ever appended for `id`.
    pub closed spec fn log_of(&self, id: u128) -> Seq<TableEvent> {
        if self.logs@.contains_key(id) {
            self.logs@[id]@
        } else {
            Seq::empty()
        }
    }

    /// The events emitted so far on the publish channel keyed by `id`.
    pub closed spec fn stream_of(&self, id: u128) -> Seq<TableEvent> {
        if self.published@.contains_key(id) {
            self.published@[id]
        } else {
            Seq::empty()
        }
    }

    /// Every publish channel carries exactly its table's recorded
    /// history, in log order.
    pub open spec fn streams_match(&self) -> bool {
        forall|a: u128| #[trigger] self.stream_of(a) == self.log_of(a)
    }

    pub fn new() -> (r: TableEventLog)
        ensures
            forall|a: u128| #[trigger] r.log_of(a) == Seq::<TableEvent>::empty(),
            forall|a: u128| #[trigger] r.stream_of(a) == Seq::<TableEvent>::empty(),
            r.streams_match(),
    {
        TableEventLog { logs: HashMap::new(), published: Ghost(Map::empty()) }
    }

    /// Durably append one event to the log of `id`, then emit the same
    /// event on the channel of `id`.
    pub fn append(&mut self, id: u128, event: TableEvent)
        ensures
            final(self).log_of(id) == old(self).log_of(id).push(event),
            final(self).stream_of(id) == old(self).stream_of(id).push(event),
            forall|a: u128|
                a != id ==> #[trigger] final(self).log_of(a) == old(self).log_of(a),
            forall|a: u128|
                a != id ==> #[trigger] final(self).stream_of(a) == old(self).stream_of(a),
            old(self).streams_match() ==> final(self).streams_match(),
    {
        let mut events: Vec<TableEvent> = match self.logs.remove(&id) {
            Some(v) => v,
            None => Vec::new(),
        };
        events.push(event);
        self.logs.insert(id, events);
        let ghost emitted = self.published@.insert(id, old(self).stream_of(id).push(event));
        proof {
            self.published@ = emitted;
            assert(self.log_of(id) =~= old(self).log_of(id).push(event));
            if old(self).streams_match() {
                assert forall|a: u128| #[trigger] self.stream_of(a) == self.log_of(a) by {
                    if a != id {
                        assert(old(self).stream_of(a) == old(self).log_of(a));
                    }
                }
            }
        }
    }

    /// How many events are recorded for `id`.
    pub fn len_of(&self, id: u128) -> (n: usize)
        ensures
            n == self.log_of(id).len(),
    {
        match self.logs.get(&id) {
            Some(v) => v.len(),
            None => 0,
        }
    }

    /// The recorded history of `id`, if any event was ever appended.
    pub fn events(&self, id: u128) -> (r: Option<&Vec<TableEvent>>)
        ensures
            match r {
                Some(v) => v@ == self.log_of(id),
                None => self.log_of(id) == Seq::<TableEvent>::empty(),
            },
    {
        self.logs.get(&id)
    }

    /// The record at position `i` of the log of `id`.
    pub fn event_at(&self, id: u128, i: usize) -> (r: Option<&TableEvent>)
        ensures
            i < self.log_of(id).len() ==> (r matches Some(e) && *e == self.log_of(id)[i as int]),
            i >= self.log_of(id).len() ==> r is None,
    {
        match self.logs.get(&id) {
            Some(v) => if i < v.len() {
                Some(&v[i])
            } else {
                None
            },
            None => None,
        }
    }
}

/// A handle addressing one live table actor.
#[derive(Debug, Clone, Copy, PartialEq, Eq, Structural)]
pub struct TableRef {
    pub(crate) id: TableId,
}

impl View for TableRef {
    type V = u128;

    closed spec fn view(&self) -> u128 {
        self.id@
    }
}

impl TableRef {
    pub fn id(&self) -> (r: TableId)
        ensures
            r@ == self@,
    {
        self.id
    }
}

struct TableActor {
    state: Table,
    version: u64,
}

/// Registry of live table actors: at most one per identity, each holding
/// the table's in-memory state and its version.
pub struct TableProcessManager {
    actors: HashMap<u128, TableActor>,
}

/// The two registries hold exactly the same live table actors.
pub open spec fn same_table_actors(a: TableProcessManager, b: TableProcessManager) -> bool {
    forall|k: u128|
        #![trigger a.has(k)]
        #![trigger b.has(k)]
        b.has(k) == a.has(k) && (a.has(k) ==> b.state_of(k) == a.state_of(k) && b.version_of(k)
            == a.version_of(k))
}

/// The two registries agree on every identity other than `id`.
pub open spec fn same_table_actors_except(
    a: TableProcessManager,
    b: TableProcessManager,
    id: u128,
) -> bool {
    forall|k: u128|
        #![trigger a.has(k)]
        #![trigger b.has(k)]
        k != id ==> b.has(k) == a.has(k) && (a.has(k) ==> b.state_of(k) == a.state_of(k)
            && b.version_of(k) == a.version_of(k))
}

/// The two stores hold exactly the same histories and streams.
pub open spec fn table_logs_unchanged(a: TableEventLog, b: TableEventLog) -> bool {
    forall|k: u128|
        #![trigger a.log_of(k)]
        #![trigger b.log_of(k)]
        b.log_of(k) == a.log_of(k) && b.stream_of(k) == a.stream_of(k)
}

/// The two stores agree on every history and stream other than those of
/// `id`.
pub open spec fn table_logs_unchanged_except(a: TableEventLog, b: TableEventLog, id: u128) -> bool {
    forall|k: u128|
        #![trigger a.log_of(k)]
        #![trigger b.log_of(k)]
        k != id ==> b.log_of(k) == a.log_of(k) && b.stream_of(k) == a.stream_of(k)
}

/// Live table state agrees with recorded history, exactly as on the order
/// side.
pub open spec fn table_consistent(m: TableProcessManager, j: TableEventLog) -> bool {
    forall|a: u128| #[trigger]
        m.has(a) ==> valid_table_history(a, j.log_of(a)) && m.state_of(a) == table_replay_state(
            j.log_of(a),
        ) && m.version_of(a) as int == j.log_of(a).len()
}

impl TableProcessManager {
    /// Whether an actor for `id` is live.
    pub closed spec fn has(&self, id: u128) -> bool {
        self.actors@.contains_key(id)
    }

    /// The live actor's in-memory state. Meaningful when `has(id)`.
    pub closed spec fn state_of(&self, id: u128) -> TableView {
        self.actors@[id].state@
    }

    /// The live actor's version. Meaningful when `has(id)`.
    pub closed spec fn version_of(&self, id: u128) -> u64 {
        self.actors@[id].version
    }

    /// Every live actor is registered under its own identity.
    pub open spec fn wf(&self) -> bool {
        forall|a: u128| #[trigger] self.has(a) ==> self.state_of(a).id == a
    }

    pub fn new() -> (r: TableProcessManager)
        ensures
            r.wf(),
            forall|a: u128| !(#[trigger] r.has(a)),
    {
        TableProcessManager { actors: HashMap::new() }
    }

    /// Non-mutating lookup of a live actor.
    pub fn find(&self, id: TableId) -> (r: Option<TableRef>)
        ensures
            match r {
                Some(h) => self.has(id@) && h@ == id@,
                None => !self.has(id@),
            },
    {
        if self.actors.contains_key(&id.0) {
            Some(TableRef { id })
        } else {
            None
        }
    }

    /// The in-memory state of the live actor for `id`, if one is live.
    pub fn current_state(&self, id: TableId) -> (r: Option<&Table>)
        ensures
            match r {
                Some(t) => self.has(id@) && t@ == self.state_of(id@),
                None => !self.has(id@),
            },
    {
        match self.actors.get(&id.0) {
            Some(actor) => Some(&actor.state),
            None => None,
        }
    }

    /// The version of the live actor for `id`, if one is live.
    pub fn current_version(&self, id: TableId) -> (r: Option<u64>)
        ensures
            match r {
                Some(v) => self.has(id@) && v == self.version_of(id@),
                None => !self.has(id@),
            },
    {
        match self.actors.get(&id.0) {
            Some(actor) => Some(actor.version),
            None => None,
        }
    }

    /// Reserve-or-attach insertion, as on the order side.
    pub fn spawn(&mut self, id: TableId, state: Table, version: u64) -> (r: TableRef)
        requires
            old(self).wf(),
            state@.id == id@,
        ensures
            final(self).wf(),
            r@ == id@,
            final(self).has(id@),
            !old(self).has(id@) ==> final(self).state_of(id@) == state@ && final(self).version_of(
                id@,
            ) == version,
            old(self).has(id@) ==> same_table_actors(*old(self), *final(self)),
            same_table_actors_except(*old(self), *final(self), id@),
    {
        if self.actors.contains_key(&id.0) {
            TableRef { id }
        } else {
            self.actors.insert(id.0, TableActor { state, version });
            proof {
                assert forall|a: u128| self.has(a) implies self.state_of(a).id == a by {
                    if a != id@ {
                        assert(old(self).has(a));
                    }
                }
            }
            TableRef { id }
        }
    }

    /// Deliver one command to the addressed table actor: the committed
    /// apply step, under the same contract as the order side. A
    /// registration command reaching a live actor is rejected with
    /// `Kernel`; a dead handle fails with `Process`; both change nothing.
    pub fn employ(
        &mut self,
        journal: &mut TableEventLog,
        handle: &TableRef,
        command: TableCommand,
    ) -> (r: Result<(), ApplicationError>)
        requires
            old(self).wf(),
        ensures
            final(self).wf(),
            old(journal).streams_match() ==> final(journal).streams_match(),
            !old(self).has(handle@) ==> {
                &&& r == Err::<(), ApplicationError>(ApplicationError::Process)
                &&& same_table_actors(*old(self), *final(self))
                &&& table_logs_unchanged(*old(journal), *final(journal))
            },
            old(self).has(handle@) && command is Register ==> {
                &&& r == Err::<(), ApplicationError>(ApplicationError::Kernel)
                &&& same_table_actors(*old(self), *final(self))
                &&& table_logs_unchanged(*old(journal), *final(journal))
            },
            old(self).has(handle@) && !(command is Register) ==> ({
                let ev = table_event_of(old(self).state_of(handle@), command);
                &&& r == Ok::<(), ApplicationError>(())
                &&& final(journal).log_of(handle@) == old(journal).log_of(handle@).push(ev)
                &&& final(journal).stream_of(handle@) == old(journal).stream_of(handle@).push(ev)
                &&& table_logs_unchanged_except(*old(journal), *final(journal), handle@)
                &&& crate::entities::table::table_terminal(ev) ==> !final(self).has(handle@)
                &&& !crate::entities::table::table_terminal(ev) ==> final(self).has(handle@)
                    && final(self).state_of(handle@) == table_apply_view(
                    old(self).state_of(handle@),
                    ev,
                ) && final(self).version_of(handle@) as int == old(journal).log_of(
                    handle@,
                ).len() + 1
                &&& same_table_actors_except(*old(self), *final(self), handle@)
            }),
    {
        let key: u128 = handle.id.0;
        match self.actors.remove(&key) {
            None => {
                proof {
                    assert(self.actors@ =~= old(self).actors@);
                    assert forall|a: u128| self.has(a) implies self.state_of(a).id == a by {
                        assert(old(self).has(a));
                    }
                }
                Err(ApplicationError::Process)
            },
            Some(mut actor) => {
                let event = match actor.state.publish(command) {
                    Ok(ev) => ev,
                    Err(_) => {
                        self.actors.insert(key, actor);
                        proof {
                            assert(self.actors@ =~= old(self).actors@);
                            assert forall|a: u128| self.has(a) implies self.state_of(a).id
                                == a by {
                                assert(old(self).has(a));
                            }
                        }
                        return Err(ApplicationError::Kernel);
                    },
                };
                let directive = actor.state.apply(&event);
                journal.append(key, event);
                let n = journal.len_of(key);
                actor.version = n as u64;
                match directive {
                    Directive::Terminate => {
                        proof {
                            assert forall|a: u128| self.has(a) implies self.state_of(a).id
                                == a by {
                                assert(old(self).has(a));
                            }
                        }
                        Ok(())
                    },
                    Directive::Continue => {
                        self.actors.insert(key, actor);
                        proof {
                            let s0 = old(self).state_of(key);
                            assert(table_apply_view(s0, table_event_of(s0, command)).id == s0.id);
                            assert forall|a: u128| self.has(a) implies self.state_of(a).id
                                == a by {
                                if a != key {
                                    assert(old(self).has(a));
                                }
                            }
                        }
                        Ok(())
                    },
                }
            },
        }
    }
}

} // verus!
