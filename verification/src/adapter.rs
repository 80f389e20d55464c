//! Replay-on-miss reconstruction: the projector that folds a recorded
//! history back into aggregate state, and the find-or-replay policy that
//! resolves a live handle, rebuilding the actor from history when the
//! registry has none.

use vstd::prelude::*;

use crate::entities::order::{
    lemma_order_replay_id, order_replay_state, valid_order_history, Order, OrderId,
};
use crate::entities::table::{
    lemma_table_replay_id, table_replay_state, valid_table_history, Table, TableId,
};
use crate::errors::ApplicationError;
use crate::io::event::{OrderEvent, TableEvent};
use crate::runtime::table::{
    same_table_actors, same_table_actors_except, TableEventLog, TableProcessManager, TableRef,
};
use crate::runtime::{same_actors, same_actors_except, EventLog, OrderRef, ProcessManager};

verus! {

/// What a find-or-replay resolution of `id` leaves behind: registry `m0`
/// and store `j` before, registry `m1` and result `r` after.
///
/// A live actor is attached to as-is. On a miss, an empty history is
/// `Formation`, a non-replayable one is `CorruptHistory`, and a valid one
/// seeds exactly one new actor carrying the replayed state and version.
/// No other actor is ever touched.
pub open spec fn resolve_outcome(
    m0: ProcessManager,
    j: EventLog,
    id: u128,
    m1: ProcessManager,
    r: Result<OrderRef, ApplicationError>,
) -> bool {
    &&& m0.has(id) ==> (r matches Ok(h) && h@ == id) && same_actors(m0, m1)
    &&& !m0.has(id) && j.log_of(id).len() == 0 ==> r == Err::<OrderRef, ApplicationError>(
        ApplicationError::Formation,
    ) && same_actors(m0, m1)
    &&& !m0.has(id) && j.log_of(id).len() > 0 && !valid_order_history(id, j.log_of(id)) ==> r
        == Err::<OrderRef, ApplicationError>(ApplicationError::CorruptHistory) && same_actors(
        m0,
        m1,
    )
    &&& !m0.has(id) && valid_order_history(id, j.log_of(id)) ==> (r matches Ok(h) && h@ == id)
        && m1.has(id) && m1.state_of(id) == order_replay_state(j.log_of(id)) && m1.version_of(id)
        as int == j.log_of(id).len() && same_actors_except(m0, m1, id)
}

/// Rebuild an order's state by folding its recorded history from sequence
/// number 1: the first record must be the creation event carrying `id`,
/// and every later record is folded through the same apply transition used
/// live, without persistence or publish side effects. An empty history is
/// `Formation`; a history holding a terminal event anywhere — the source of
/// an aborted replay — is surfaced as `CorruptHistory`.
pub fn replay_to_latest(journal: &EventLog, id: OrderId) -> (r: Result<
    (Order, u64),
    ApplicationError,
>)
    ensures
        journal.log_of(id@).len() == 0 ==> r == Err::<(Order, u64), ApplicationError>(
            ApplicationError::Formation,
        ),
        journal.log_of(id@).len() > 0 && !valid_order_history(id@, journal.log_of(id@)) ==> r
            == Err::<(Order, u64), ApplicationError>(ApplicationError::CorruptHistory),
        valid_order_history(id@, journal.log_of(id@)) ==> (r matches Ok(p) && p.0@
            == order_replay_state(journal.log_of(id@)) && p.1 as int == journal.log_of(
            id@,
        ).len()),
{
    let ghost log = journal.log_of(id@);
    let events = match journal.events(id.0) {
        None => {
            return Err(ApplicationError::Formation);
        },
        Some(v) => v,
    };
    if events.len() == 0 {
        return Err(ApplicationError::Formation);
    }
    let state0 = match &events[0] {
        OrderEvent::Created { id: first_id, table } => {
            if first_id.0 != id.0 {
                return Err(ApplicationError::CorruptHistory);
            }
            Order::new(*first_id, *table)
        },
        _ => {
            return Err(ApplicationError::CorruptHistory);
        },
    };
    proof {
        assert(log.subrange(0, 1)[0] == log[0]);
    }
    let mut state = state0;
    let mut i: usize = 1;
    while i < events.len()
        invariant
            1 <= i <= events.len(),
            events@ == log,
            log == journal.log_of(id@),
            log.len() > 0,
            (log[0] matches OrderEvent::Created { id: first_id, .. } && first_id@ == id@),
            forall|j: int| 0 <= j < i ==> !crate::entities::order::order_terminal(
                #[trigger] log[j],
            ),
            state@ == order_replay_state(log.subrange(0, i as int)),
        decreases events.len() - i,
    {
        let ev = &events[i];
        match ev {
            OrderEvent::Settled { .. } => {
                proof {
                    assert(crate::entities::order::order_terminal(log[i as int]));
                }
                return Err(ApplicationError::CorruptHistory);
            },
            _ => {},
        }
        let _ = state.apply(ev);
        proof {
            assert(log.subrange(0, i + 1 as int).drop_last() =~= log.subrange(0, i as int));
            assert(log.subrange(0, i + 1 as int).last() == log[i as int]);
        }
        i = i + 1;
    }
    proof {
        assert(log.subrange(0, log.len() as int) =~= log);
    }
    let n = events.len();
    Ok((state, n as u64))
}

/// Rebuild a table's state by folding its recorded history, under the
/// same rules as the order projector.
pub fn replay_table_to_latest(journal: &TableEventLog, id: TableId) -> (r: Result<
    (Table, u64),
    ApplicationError,
>)
    ensures
        journal.log_of(id@).len() == 0 ==> r == Err::<(Table, u64), ApplicationError>(
            ApplicationError::Formation,
        ),
        journal.log_of(id@).len() > 0 && !valid_table_history(id@, journal.log_of(id@)) ==> r
            == Err::<(Table, u64), ApplicationError>(ApplicationError::CorruptHistory),
        valid_table_history(id@, journal.log_of(id@)) ==> (r matches Ok(p) && p.0@
            == table_replay_state(journal.log_of(id@)) && p.1 as int == journal.log_of(
            id@,
        ).len()),
{
    let ghost log = journal.log_of(id@);
    let history = match journal.events(id.0) {
        None => {
            return Err(ApplicationError::Formation);
        },
        Some(v) => v,
    };
    if history.len() == 0 {
        return Err(ApplicationError::Formation);
    }
    let state0 = match &history[0] {
        TableEvent::Registered { id: first_id, name } => {
            if first_id.0 != id.0 {
                return Err(ApplicationError::CorruptHistory);
            }
            Table::new(*first_id, name.duplicate())
        },
        _ => {
            return Err(ApplicationError::CorruptHistory);
        },
    };
    proof {
        assert(history@.subrange(0, 1)[0] == history@[0]);
    }
    let mut state = state0;
    let mut i: usize = 1;
    while i < history.len()
        invariant
            1 <= i <= history@.len(),
            history@ == log,
            log == journal.log_of(id@),
            history@.len() > 0,
            (history@[0] matches TableEvent::Registered { id: first_id, .. } && first_id@ == id@),
            forall|j: int| 0 <= j < i ==> !crate::entities::table::table_terminal(
                #[trigger] history@[j],
            ),
            state@ == table_replay_state(history@.subrange(0, i as int)),
        decreases history@.len() - i,
    {
        let ev = &history[i];
        match ev {
            TableEvent::Deregistered { .. } => {
                proof {
                    assert(crate::entities::table::table_terminal(history@[i as int]));
                }
                return Err(ApplicationError::CorruptHistory);
            },
            _ => {},
        }
        let _ = state.apply(ev);
        proof {
            assert(history@.subrange(0, i + 1 as int).drop_last() =~= history@.subrange(
                0,
                i as int,
            ));
            assert(history@.subrange(0, i + 1 as int).last() == history@[i as int]);
        }
        i = i + 1;
    }
    proof {
        assert(history@.subrange(0, history@.len() as int) =~= history@);
    }
    let n = history.len();
    Ok((state, n as u64))
}

/// What a find-or-replay resolution of table `id` leaves behind, exactly
/// as `resolve_outcome` on the order side.
pub open spec fn table_resolve_outcome(
    m0: TableProcessManager,
    j: TableEventLog,
    id: u128,
    m1: TableProcessManager,
    r: Result<TableRef, ApplicationError>,
) -> bool {
    &&& m0.has(id) ==> (r matches Ok(h) && h@ == id) && same_table_actors(m0, m1)
    &&& !m0.has(id) && j.log_of(id).len() == 0 ==> r == Err::<TableRef, ApplicationError>(
        ApplicationError::Formation,
    ) && same_table_actors(m0, m1)
    &&& !m0.has(id) && j.log_of(id).len() > 0 && !valid_table_history(id, j.log_of(id)) ==> r
        == Err::<TableRef, ApplicationError>(ApplicationError::CorruptHistory)
        && same_table_actors(m0, m1)
    &&& !m0.has(id) && valid_table_history(id, j.log_of(id)) ==> (r matches Ok(h) && h@ == id)
        && m1.has(id) && m1.state_of(id) == table_replay_state(j.log_of(id)) && m1.version_of(id)
        as int == j.log_of(id).len() && same_table_actors_except(m0, m1, id)
}

/// Resolve a live handle for table `id`: use the existing live actor if
/// present, otherwise replay the recorded history and spawn an actor
/// seeded with the recovered state and version.
pub fn find_or_replay_table(
    id: TableId,
    manager: &mut TableProcessManager,
    journal: &TableEventLog,
) -> (r: Result<TableRef, ApplicationError>)
    requires
        old(manager).wf(),
    ensures
        final(manager).wf(),
        table_resolve_outcome(*old(manager), *journal, id@, *final(manager), r),
{
    match manager.find(id) {
        Some(h) => Ok(h),
        None => {
            let replayed = match replay_table_to_latest(journal, id) {
                Ok(p) => p,
                Err(e) => {
                    return Err(e);
                },
            };
            proof {
                lemma_table_replay_id(id@, journal.log_of(id@));
            }
            let h = manager.spawn(id, replayed.0, replayed.1);
            Ok(h)
        },
    }
}

/// Resolve a live handle for `id`: use the existing live actor if present,
/// otherwise replay the recorded history and spawn an actor seeded with
/// the recovered state and version.
pub fn find_or_replay(id: OrderId, manager: &mut ProcessManager, journal: &EventLog) -> (r: Result<
    OrderRef,
    ApplicationError,
>)
    requires
        old(manager).wf(),
    ensures
        final(manager).wf(),
        resolve_outcome(*old(manager), *journal, id@, *final(manager), r),
{
    match manager.find(id) {
        Some(h) => Ok(h),
        None => {
            let replayed = match replay_to_latest(journal, id) {
                Ok(p) => p,
                Err(e) => {
                    return Err(e);
                },
            };
            proof {
                lemma_order_replay_id(id@, journal.log_of(id@));
            }
            let h = manager.spawn(id, replayed.0, replayed.1);
            Ok(h)
        },
    }
}

} // verus!
