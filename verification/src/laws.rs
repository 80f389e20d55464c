//! System-level laws of the aggregate runtime, stated over the spec
//! functions that the public contracts use and proved once and for all.

use vstd::prelude::*;

use crate::adapter::resolve_outcome;
use crate::entities::order::{
    order_apply_view, order_event_of, order_first_view, order_replay_state, order_terminal,
    valid_order_history, OrderView,
};
use crate::io::command::OrderCommand;
use crate::io::event::OrderEvent;
use crate::runtime::{consistent, same_actors, EventLog, ProcessManager};

verus! {

/// Log-driven and live-driven paths agree: under the registry/store
/// consistency that every runtime operation preserves, replaying a live
/// aggregate's recorded history reproduces exactly its in-memory state,
/// and its version is the history's length.
pub proof fn lemma_replay_reproduces_live(m: ProcessManager, j: EventLog, id: u128)
    requires
        consistent(m, j),
        m.has(id),
    ensures
        valid_order_history(id, j.log_of(id)),
        m.state_of(id) == order_replay_state(j.log_of(id)),
        m.version_of(id) as int == j.log_of(id).len(),
{
}

/// Find-or-replay never duplicates an actor: once one resolution of `id`
/// has produced a live actor, a further resolution of the same identifier
/// against the same store attaches to that actor, returns a handle to it,
/// and leaves the registry exactly as it was.
pub proof fn lemma_find_or_replay_idempotent(
    m0: ProcessManager,
    j: EventLog,
    id: u128,
    m1: ProcessManager,
    r1: Result<crate::runtime::OrderRef, crate::errors::ApplicationError>,
    m2: ProcessManager,
    r2: Result<crate::runtime::OrderRef, crate::errors::ApplicationError>,
)
    requires
        resolve_outcome(m0, j, id, m1, r1),
        r1 is Ok,
        resolve_outcome(m1, j, id, m2, r2),
    ensures
        m1.has(id),
        same_actors(m1, m2),
        r2 matches Ok(h) && h@ == id,
{
    if !m0.has(id) {
        assert(j.log_of(id).len() > 0 && valid_order_history(id, j.log_of(id)));
    }
}

/// One validate-then-apply step for an accepted command, as `employ`
/// commits it: the command is validated against the current state into its
/// event, and the event is folded into the state. (A creation command is
/// rejected by a live actor and changes nothing.)
pub open spec fn order_step(s: OrderView, c: OrderCommand) -> OrderView {
    order_apply_view(s, order_event_of(s, c))
}

/// The state after delivering the commands of `cs` one at a time, in
/// order.
pub open spec fn run_commands(s: OrderView, cs: Seq<OrderCommand>) -> OrderView
    decreases cs.len(),
{
    if cs.len() == 0 {
        s
    } else {
        run_commands(order_step(s, cs[0]), cs.drop_first())
    }
}

/// Mailbox serialization: an actor processes the commands addressed to it
/// strictly one at a time, so the state after any arrival sequence is the
/// sequential fold of exactly those commands in that order — batches of
/// deliveries compose, with no lost update and no interleaved partial
/// mutation.
pub proof fn lemma_commands_serialize(s: OrderView, cs1: Seq<OrderCommand>, cs2: Seq<OrderCommand>)
    ensures
        run_commands(s, cs1 + cs2) == run_commands(run_commands(s, cs1), cs2),
    decreases cs1.len(),
{
    if cs1.len() == 0 {
        assert(cs1 + cs2 =~= cs2);
    } else {
        assert((cs1 + cs2)[0] == cs1[0]);
        assert((cs1 + cs2).drop_first() =~= cs1.drop_first() + cs2);
        lemma_commands_serialize(order_step(s, cs1[0]), cs1.drop_first(), cs2);
    }
}

/// The events recorded when the commands of `cs` are delivered in order to
/// an actor whose state starts at `s`: each command's event is validated
/// against the state reached by the commands before it.
pub open spec fn events_of_commands(s: OrderView, cs: Seq<OrderCommand>) -> Seq<OrderEvent>
    decreases cs.len(),
{
    if cs.len() == 0 {
        Seq::empty()
    } else {
        events_of_commands(s, cs.drop_last()).push(
            order_event_of(run_commands(s, cs.drop_last()), cs.last()),
        )
    }
}

/// Log-driven and live-driven paths agree, stated over whole command
/// sequences: for any run that begins with the creation event and then
/// delivers the accepted commands of `cs` in order, the recorded log is
/// the creation event followed by exactly their events, and folding that
/// log through the projector's transition reproduces exactly the state
/// that live application reached.
pub proof fn lemma_log_replay_matches_live(s1: OrderView, created: OrderEvent, cs: Seq<OrderCommand>)
    requires
        created is Created,
        order_first_view(created) == s1,
        forall|i: int| 0 <= i < cs.len() ==> !(#[trigger] cs[i] is Create),
    ensures
        order_replay_state(seq![created] + events_of_commands(s1, cs)) == run_commands(s1, cs),
    decreases cs.len(),
{
    if cs.len() == 0 {
        assert(seq![created] + events_of_commands(s1, cs) =~= seq![created]);
    } else {
        let prefix = cs.drop_last();
        assert forall|i: int| 0 <= i < prefix.len() implies !(#[trigger] prefix[i] is Create) by {
            assert(prefix[i] == cs[i]);
        }
        lemma_log_replay_matches_live(s1, created, prefix);
        let log_prev = seq![created] + events_of_commands(s1, prefix);
        let ev = order_event_of(run_commands(s1, prefix), cs.last());
        assert(seq![created] + events_of_commands(s1, cs) =~= log_prev.push(ev));
        assert(log_prev.push(ev).drop_last() =~= log_prev);
        assert(order_replay_state(log_prev.push(ev)) == order_apply_view(
            order_replay_state(log_prev),
            ev,
        ));
        assert(cs =~= prefix + seq![cs.last()]);
        lemma_commands_serialize(s1, prefix, seq![cs.last()]);
        let single = seq![cs.last()];
        let t = run_commands(s1, prefix);
        assert(single[0] == cs.last());
        assert(single.drop_first() =~= Seq::<OrderCommand>::empty());
        assert(run_commands(order_step(t, cs.last()), Seq::<OrderCommand>::empty()) == order_step(
            t,
            cs.last(),
        ));
        assert(run_commands(t, single) == order_step(t, cs.last()));
    }
}

/// A history holding a terminal event anywhere is not a replayable source:
/// after settlement, find-or-replay cannot silently resurrect the
/// aggregate as a live actor.
pub proof fn lemma_terminal_history_not_replayable(id: u128, log: Seq<OrderEvent>, i: int)
    requires
        0 <= i < log.len(),
        order_terminal(log[i]),
    ensures
        !valid_order_history(id, log),
{
}

} // verus!
