//! Application service: find-or-replay orchestration, cross-aggregate
//! product confirmation, and command dispatch for order aggregates.

use vstd::prelude::*;

use crate::adapter::{find_or_replay, resolve_outcome};
use crate::entities::order::{
    order_apply_view, order_event_of, order_first_view, order_replay_state, valid_order_history,
    Order, OrderId, OrderView, ProductBatch, ProductId,
};
use crate::errors::{ApplicationError, InquiryError};
use crate::io::command::OrderCommand;
use crate::io::event::OrderEvent;
use crate::runtime::{
    consistent, logs_unchanged, logs_unchanged_except, same_actors, same_actors_except, EventLog,
    OrderRef, ProcessManager,
};

verus! {

/// External product-catalog lookup, implemented by the surrounding
/// application. `Ok(Some(_))` means the product exists, `Ok(None)` that it
/// is absent, `Err` that the query itself failed.
pub trait ProductInquiryService {
    type Response;

    fn get_product(&self, id: &ProductId) -> Result<Option<Self::Response>, InquiryError>;
}

/// Relies on uuid::Uuid::new_v4 for identifier minting: a fresh random
/// 128-bit value; nothing is promised of it.
#[verifier::external_body]
fn mint_identifier() -> u128 {
    uuid::Uuid::new_v4().as_u128()
}

/// The service's verdict on one inquiry outcome: an answered query
/// confirms the product, an absent product is `NotFound`, a failed query
/// is `Io`.
pub fn confirm_inquiry<T>(outcome: Result<Option<T>, InquiryError>) -> (r: Result<
    (),
    ApplicationError,
>)
    ensures
        outcome matches Ok(Some(_)) ==> r == Ok::<(), ApplicationError>(()),
        outcome matches Ok(None) ==> r == Err::<(), ApplicationError>(ApplicationError::NotFound),
        outcome is Err ==> r == Err::<(), ApplicationError>(ApplicationError::Io),
{
    match outcome {
        Ok(Some(_)) => Ok(()),
        Ok(None) => Err(ApplicationError::NotFound),
        Err(_) => Err(ApplicationError::Io),
    }
}

/// Confirm every product referenced by the batch against the external
/// catalog, before any dispatch. The external collaborator decides the
/// verdict; an empty batch needs no confirmation and always passes.
pub fn check_products<I: ProductInquiryService>(inquiry: &I, products: &ProductBatch) -> (r: Result<
    (),
    ApplicationError,
>)
    ensures
        products.entries@.len() == 0 ==> r == Ok::<(), ApplicationError>(()),
        r == Ok::<(), ApplicationError>(()) || r == Err::<(), ApplicationError>(
            ApplicationError::Io,
        ) || r == Err::<(), ApplicationError>(ApplicationError::NotFound),
{
    let mut i: usize = 0;
    while i < products.entries.len()
        invariant
            i <= products.entries.len(),
        decreases products.entries.len() - i,
    {
        let pid = products.entries[i].0;
        match confirm_inquiry(inquiry.get_product(&pid)) {
            Ok(()) => {},
            Err(e) => {
                return Err(e);
            },
        }
        i = i + 1;
    }
    Ok(())
}

/// Strip the returned identifier, keeping the verdict.
pub open spec fn unit_of(r: Result<OrderId, ApplicationError>) -> Result<(), ApplicationError> {
    match r {
        Ok(_) => Ok(()),
        Err(e) => Err(e),
    }
}

/// What one dispatch of `cmd` as aggregate `id` leaves behind: registry
/// `m0` and store `j0` before, registry `m1`, store `j1` and verdict `r`
/// after.
///
/// A creation command requires a completely fresh identity (no live actor,
/// no recorded history); it seeds the initial state from the command and
/// records the creation event as the log's first record. Any other command
/// resolves the actor by find-or-replay; an `AddProducts` command reaches
/// the aggregate only once every referenced product is confirmed, and a
/// confirmation failure leaves every log untouched. A `Settle` dispatch
/// records the terminal event and removes the actor. No aggregate other
/// than `id` is ever touched.
pub open spec fn dispatch_outcome(
    m0: ProcessManager,
    j0: EventLog,
    id: u128,
    cmd: OrderCommand,
    m1: ProcessManager,
    j1: EventLog,
    r: Result<(), ApplicationError>,
) -> bool {
    match cmd {
        OrderCommand::Create { table } => {
            &&& (m0.has(id) || j0.log_of(id).len() > 0) ==> r == Err::<(), ApplicationError>(
                ApplicationError::Process,
            ) && same_actors(m0, m1) && logs_unchanged(j0, j1)
            &&& (!m0.has(id) && j0.log_of(id).len() == 0) ==> r == Ok::<(), ApplicationError>(())
                && j1.log_of(id) == seq![OrderEvent::Created { id: OrderId(id), table }]
                && j1.stream_of(id) == j0.stream_of(id).push(
                OrderEvent::Created { id: OrderId(id), table },
            ) && m1.has(id) && m1.state_of(id) == (OrderView {
                id,
                table: table@,
                products: Seq::empty(),
            }) && m1.version_of(id) == 1 && logs_unchanged_except(j0, j1, id)
                && same_actors_except(m0, m1, id)
        },
        OrderCommand::AddProducts { products } => ({
            let resolved = m0.has(id) || valid_order_history(id, j0.log_of(id));
            let s0 = if m0.has(id) {
                m0.state_of(id)
            } else {
                order_replay_state(j0.log_of(id))
            };
            let v0 = if m0.has(id) {
                m0.version_of(id) as int
            } else {
                j0.log_of(id).len() as int
            };
            let ev = order_event_of(s0, OrderCommand::AddProducts { products });
            &&& (!m0.has(id) && j0.log_of(id).len() == 0) ==> r == Err::<(), ApplicationError>(
                ApplicationError::Formation,
            ) && same_actors(m0, m1) && logs_unchanged(j0, j1)
            &&& (!m0.has(id) && j0.log_of(id).len() > 0 && !valid_order_history(
                id,
                j0.log_of(id),
            )) ==> r == Err::<(), ApplicationError>(ApplicationError::CorruptHistory)
                && same_actors(m0, m1) && logs_unchanged(j0, j1)
            &&& resolved ==> ({
                &&& r == Ok::<(), ApplicationError>(()) || r == Err::<(), ApplicationError>(
                    ApplicationError::Io,
                ) || r == Err::<(), ApplicationError>(ApplicationError::NotFound)
                &&& products.entries@.len() == 0 ==> r == Ok::<(), ApplicationError>(())
                &&& r == Ok::<(), ApplicationError>(()) ==> j1.log_of(id) == j0.log_of(id).push(
                    ev,
                ) && j1.stream_of(id) == j0.stream_of(id).push(ev) && logs_unchanged_except(
                    j0,
                    j1,
                    id,
                ) && m1.has(id) && m1.state_of(id)
                    == order_apply_view(s0, ev) && m1.version_of(id) as int == j0.log_of(
                    id,
                ).len() + 1 && same_actors_except(m0, m1, id)
                &&& (r == Err::<(), ApplicationError>(ApplicationError::Io) || r == Err::<
                    (),
                    ApplicationError,
                >(ApplicationError::NotFound)) ==> logs_unchanged(j0, j1) && m1.has(id)
                    && m1.state_of(id) == s0 && m1.version_of(id) as int == v0
                    && same_actors_except(m0, m1, id)
            })
        }),
        OrderCommand::Settle => ({
            let resolved = m0.has(id) || valid_order_history(id, j0.log_of(id));
            let s0 = if m0.has(id) {
                m0.state_of(id)
            } else {
                order_replay_state(j0.log_of(id))
            };
            let ev = order_event_of(s0, OrderCommand::Settle);
            &&& (!m0.has(id) && j0.log_of(id).len() == 0) ==> r == Err::<(), ApplicationError>(
                ApplicationError::Formation,
            ) && same_actors(m0, m1) && logs_unchanged(j0, j1)
            &&& (!m0.has(id) && j0.log_of(id).len() > 0 && !valid_order_history(
                id,
                j0.log_of(id),
            )) ==> r == Err::<(), ApplicationError>(ApplicationError::CorruptHistory)
                && same_actors(m0, m1) && logs_unchanged(j0, j1)
            &&& resolved ==> r == Ok::<(), ApplicationError>(()) && j1.log_of(id) == j0.log_of(
                id,
            ).push(ev) && j1.stream_of(id) == j0.stream_of(id).push(ev) && logs_unchanged_except(
                j0,
                j1,
                id,
            ) && !m1.has(id) && same_actors_except(
                m0,
                m1,
                id,
            )
        }),
    }
}

/// Orchestrates command execution for order aggregates.
pub struct OrderCommandService;

impl OrderCommandService {
    /// Dispatch `cmd` as the aggregate identified by `id`: the
    /// deterministic core of `execute`, with the target identity fixed by
    /// the caller. See `dispatch_outcome` for the full effect.
    pub fn execute_as<I: ProductInquiryService>(
        &self,
        manager: &mut ProcessManager,
        journal: &mut EventLog,
        inquiry: &I,
        id: OrderId,
        cmd: OrderCommand,
    ) -> (r: Result<(), ApplicationError>)
        requires
            old(manager).wf(),
            consistent(*old(manager), *old(journal)),
        ensures
            final(manager).wf(),
            consistent(*final(manager), *final(journal)),
            old(journal).streams_match() ==> final(journal).streams_match(),
            dispatch_outcome(
                *old(manager),
                *old(journal),
                id@,
                cmd,
                *final(manager),
                *final(journal),
                r,
            ),
    {
        match cmd {
            OrderCommand::Create { table } => {
                if manager.find(id).is_some() {
                    return Err(ApplicationError::Process);
                }
                if journal.len_of(id.0) > 0 {
                    return Err(ApplicationError::Process);
                }
                let order = match Order::try_from((id, OrderCommand::Create { table })) {
                    Ok(o) => o,
                    Err(_) => {
                        return Err(ApplicationError::Formation);
                    },
                };
                let ghost s_init = order@;
                journal.append(id.0, OrderEvent::Created { id, table });
                let _ = manager.spawn(id, order, 1);
                proof {
                    let ev = OrderEvent::Created { id, table };
                    assert(OrderId(id@) == id);
                    assert(journal.log_of(id@) =~= seq![ev]);
                    assert(order_replay_state(journal.log_of(id@)) == order_first_view(ev));
                    assert(order_first_view(ev) == s_init);
                    assert(valid_order_history(id@, journal.log_of(id@)));
                    assert forall|a: u128| manager.has(a) implies valid_order_history(
                        a,
                        journal.log_of(a),
                    ) && manager.state_of(a) == order_replay_state(journal.log_of(a))
                        && manager.version_of(a) as int == journal.log_of(a).len() by {
                        if a != id@ {
                            assert(old(manager).has(a));
                            assert(journal.log_of(a) == old(journal).log_of(a));
                        }
                    }
                }
                Ok(())
            },
            OrderCommand::AddProducts { products } => {
                let handle = match find_or_replay(id, manager, journal) {
                    Ok(h) => h,
                    Err(e) => {
                        return Err(e);
                    },
                };
                let ghost m_a = *manager;
                match check_products(inquiry, &products) {
                    Ok(()) => {},
                    Err(e) => {
                        proof {
                            lemma_resolved_consistent(
                                *old(manager),
                                *old(journal),
                                id@,
                                *manager,
                                Ok(handle),
                            );
                        }
                        return Err(e);
                    },
                }
                let r = manager.employ(journal, &handle, OrderCommand::AddProducts { products });
                proof {
                    let m0 = *old(manager);
                    let j0 = *old(journal);
                    let log0 = j0.log_of(id@);
                    let s0 = if m0.has(id@) {
                        m0.state_of(id@)
                    } else {
                        order_replay_state(log0)
                    };
                    let ev = order_event_of(s0, OrderCommand::AddProducts { products });
                    assert(m_a.state_of(id@) == s0);
                    assert(valid_order_history(id@, log0));
                    let log1 = journal.log_of(id@);
                    assert(log1 == log0.push(ev));
                    assert(log1[0] == log0[0]);
                    assert forall|i: int| 0 <= i < log1.len() implies !crate::entities::order::order_terminal(
                        #[trigger] log1[i],
                    ) by {
                        if i < log0.len() {
                            assert(log1[i] == log0[i]);
                        }
                    }
                    assert(valid_order_history(id@, log1));
                    assert(log1.drop_last() =~= log0);
                    assert(order_replay_state(log1) == order_apply_view(
                        order_replay_state(log0),
                        ev,
                    ));
                    assert(m_a.version_of(id@) as int == log0.len());
                    assert forall|a: u128| manager.has(a) implies valid_order_history(
                        a,
                        journal.log_of(a),
                    ) && manager.state_of(a) == order_replay_state(journal.log_of(a))
                        && manager.version_of(a) as int == journal.log_of(a).len() by {
                        if a != id@ {
                            assert(m_a.has(a));
                            assert(journal.log_of(a) == j0.log_of(a));
                            if m0.has(a) {
                            } else {
                                assert(m_a.state_of(a) == m0.state_of(a));
                            }
                        }
                    }
                    assert forall|k: u128| k != id@ implies manager.has(k) == m0.has(k) && (m0.has(
                        k,
                    ) ==> manager.state_of(k) == m0.state_of(k) && manager.version_of(k)
                        == m0.version_of(k)) by {
                        assert(m_a.has(k) == m0.has(k));
                    }
                    assert(same_actors_except(m0, *manager, id@));
                }
                r
            },
            OrderCommand::Settle => {
                let handle = match find_or_replay(id, manager, journal) {
                    Ok(h) => h,
                    Err(e) => {
                        return Err(e);
                    },
                };
                let ghost m_a = *manager;
                let r = manager.employ(journal, &handle, OrderCommand::Settle);
                proof {
                    let m0 = *old(manager);
                    let j0 = *old(journal);
                    let log0 = j0.log_of(id@);
                    let s0 = if m0.has(id@) {
                        m0.state_of(id@)
                    } else {
                        order_replay_state(log0)
                    };
                    assert(m_a.state_of(id@) == s0);
                    assert forall|a: u128| manager.has(a) implies valid_order_history(
                        a,
                        journal.log_of(a),
                    ) && manager.state_of(a) == order_replay_state(journal.log_of(a))
                        && manager.version_of(a) as int == journal.log_of(a).len() by {
                        assert(a != id@);
                        assert(m_a.has(a));
                        assert(journal.log_of(a) == j0.log_of(a));
                        if m0.has(a) {
                        } else {
                            assert(m_a.state_of(a) == m0.state_of(a));
                        }
                    }
                    assert forall|k: u128| k != id@ implies manager.has(k) == m0.has(k) && (m0.has(
                        k,
                    ) ==> manager.state_of(k) == m0.state_of(k) && manager.version_of(k)
                        == m0.version_of(k)) by {
                        assert(m_a.has(k) == m0.has(k));
                    }
                    assert(same_actors_except(m0, *manager, id@));
                }
                r
            },
        }
    }

    /// Execute one command: a creation command mints a fresh identity and
    /// seeds the aggregate from the command itself; any other command
    /// requires the caller-supplied identity and resolves the actor by
    /// find-or-replay. Returns the identity the command was executed as.
    pub fn execute<I: ProductInquiryService>(
        &self,
        manager: &mut ProcessManager,
        journal: &mut EventLog,
        inquiry: &I,
        id: Option<OrderId>,
        cmd: OrderCommand,
    ) -> (r: Result<OrderId, ApplicationError>)
        requires
            old(manager).wf(),
            consistent(*old(manager), *old(journal)),
        ensures
            final(manager).wf(),
            consistent(*final(manager), *final(journal)),
            old(journal).streams_match() ==> final(journal).streams_match(),
            !(cmd is Create) && id is None ==> r == Err::<OrderId, ApplicationError>(
                ApplicationError::RequiredId,
            ) && same_actors(*old(manager), *final(manager)) && logs_unchanged(
                *old(journal),
                *final(journal),
            ),
            !(cmd is Create) ==> (id matches Some(given) ==> (dispatch_outcome(
                *old(manager),
                *old(journal),
                given@,
                cmd,
                *final(manager),
                *final(journal),
                unit_of(r),
            ) && (r matches Ok(rid) ==> rid == given))),
            cmd is Create ==> (exists|minted: u128|
                #![auto]
                dispatch_outcome(
                    *old(manager),
                    *old(journal),
                    minted,
                    cmd,
                    *final(manager),
                    *final(journal),
                    unit_of(r),
                ) && (r matches Ok(rid) ==> rid@ == minted)),
    {
        let target: OrderId = match &cmd {
            OrderCommand::Create { .. } => OrderId::new(mint_identifier()),
            _ => match id {
                Some(given) => given,
                None => {
                    return Err(ApplicationError::RequiredId);
                },
            },
        };
        let outcome = self.execute_as(manager, journal, inquiry, target, cmd);
        let r = match outcome {
            Ok(()) => Ok(target),
            Err(e) => Err(e),
        };
        proof {
            assert(unit_of(r) == outcome);
        }
        r
    }
}

/// After a successful resolution the registry is still consistent with the
/// store: the resolved actor carries exactly the replayed state.
proof fn lemma_resolved_consistent(
    m0: ProcessManager,
    j: EventLog,
    id: u128,
    m1: ProcessManager,
    r: Result<OrderRef, ApplicationError>,
)
    requires
        consistent(m0, j),
        resolve_outcome(m0, j, id, m1, r),
        r is Ok,
    ensures
        consistent(m1, j),
{
    assert forall|a: u128| m1.has(a) implies valid_order_history(a, j.log_of(a)) && m1.state_of(a)
        == order_replay_state(j.log_of(a)) && m1.version_of(a) as int == j.log_of(a).len() by {
        if m0.has(id) {
            assert(m0.has(a));
        } else {
            assert(valid_order_history(id, j.log_of(id)));
            if a != id {
                assert(m0.has(a));
            }
        }
    }
}

} // verus!
