//! The customer-order aggregate: its identifier and value objects, its
//! state, and its validate-then-apply state machine.
//!
//! An order is fixed to a dining table at creation; accepted "add products"
//! commands each append one whole product batch (a mapping from product id
//! to quantity) to the order. The designated terminal event is `Settled`.

use vstd::prelude::*;

use crate::entities::table::TableId;
use crate::entities::Directive;
use crate::errors::{FormationError, ValidationError};
use crate::io::command::OrderCommand;
use crate::io::event::OrderEvent;

verus! {

/// Opaque 128-bit identity of one order aggregate, minted client-side at
/// creation and immutable afterwards.
#[derive(Debug, Clone, Copy, PartialEq, Eq, Hash, Structural)]
pub struct OrderId(pub u128);

impl View for OrderId {
    type V = u128;

    open spec fn view(&self) -> u128 {
        self.0
    }
}

impl OrderId {
    pub fn new(id: u128) -> (r: Self)
        ensures
            r@ == id,
    {
        OrderId(id)
    }
}

/// Opaque 128-bit identity of a product in the external catalog.
#[derive(Debug, Clone, Copy, PartialEq, Eq, Hash, Structural)]
pub struct ProductId(pub u128);

impl View for ProductId {
    type V = u128;

    open spec fn view(&self) -> u128 {
        self.0
    }
}

impl ProductId {
    pub fn new(id: u128) -> (r: Self)
        ensures
            r@ == id,
    {
        ProductId(id)
    }
}

/// A signed product count. No non-negativity invariant is enforced.
#[derive(Debug, Clone, Copy, PartialEq, Eq, Structural)]
pub struct Quantity(pub i32);

impl View for Quantity {
    type V = i32;

    open spec fn view(&self) -> i32 {
        self.0
    }
}

impl Quantity {
    pub fn new(qty: i32) -> (r: Self)
        ensures
            r@ == qty,
    {
        Quantity(qty)
    }
}

/// One batch of products: a mapping from product id to quantity. A later
/// binding for the same product id replaces the earlier one.
#[derive(Debug, Clone, PartialEq, Eq)]
pub struct ProductBatch {
    pub entries: Vec<(ProductId, Quantity)>,
}

/// The mapping that a sequence of bindings denotes, later bindings
/// overriding earlier ones.
pub closed spec fn batch_entries_map(s: Seq<(ProductId, Quantity)>) -> Map<u128, i32>
    decreases s.len(),
{
    if s.len() == 0 {
        Map::empty()
    } else {
        batch_entries_map(s.drop_last()).insert(s.last().0@, s.last().1@)
    }
}

impl View for ProductBatch {
    type V = Map<u128, i32>;

    closed spec fn view(&self) -> Map<u128, i32> {
        batch_entries_map(self.entries@)
    }
}

impl ProductBatch {
    pub fn new() -> (r: Self)
        ensures
            r@ == Map::<u128, i32>::empty(),
            r.entries@.len() == 0,
    {
        ProductBatch { entries: Vec::new() }
    }

    /// Bind `product` to `quantity`, replacing any earlier binding.
    pub fn insert(&mut self, product: ProductId, quantity: Quantity)
        ensures
            final(self)@ == old(self)@.insert(product@, quantity@),
            final(self).entries@.len() == old(self).entries@.len() + 1,
    {
        self.entries.push((product, quantity));
        proof {
            assert(self.entries@.drop_last() =~= old(self).entries@);
        }
    }

    /// A value-equal copy of the batch.
    pub fn duplicate(&self) -> (r: Self)
        ensures
            r.entries@ == self.entries@,
            r@ == self@,
    {
        let mut out: Vec<(ProductId, Quantity)> = Vec::new();
        let mut i: usize = 0;
        while i < self.entries.len()
            invariant
                i <= self.entries.len(),
                out@ == self.entries@.subrange(0, i as int),
            decreases self.entries.len() - i,
        {
            let pair = self.entries[i];
            out.push(pair);
            proof {
                assert(out@ =~= self.entries@.subrange(0, i + 1 as int));
            }
            i = i + 1;
        }
        proof {
            assert(out@ =~= self.entries@);
        }
        ProductBatch { entries: out }
    }
}

/// The abstract state of one order aggregate.
pub struct OrderView {
    pub id: u128,
    pub table: u128,
    pub products: Seq<Map<u128, i32>>,
}

/// An order: identity and table reference fixed at creation, plus the
/// accumulated product batches. State changes only through `apply`.
#[derive(Debug, Clone, PartialEq, Eq)]
pub struct Order {
    id: OrderId,
    table: TableId,
    products: Vec<ProductBatch>,
}

impl View for Order {
    type V = OrderView;

    closed spec fn view(&self) -> OrderView {
        OrderView {
            id: self.id@,
            table: self.table@,
            products: self.products@.map_values(|b: ProductBatch| b@),
        }
    }
}

/// The event that the order's validate step produces for an accepted
/// command in state `s`. Meaningful for the commands a live order
/// accepts; the creation command is rejected by `order_validate`.
pub open spec fn order_event_of(s: OrderView, c: OrderCommand) -> OrderEvent {
    match c {
        OrderCommand::Create { table } => OrderEvent::Created { id: OrderId(s.id), table },
        OrderCommand::AddProducts { products } => OrderEvent::AddedProducts {
            id: OrderId(s.id),
            products,
        },
        OrderCommand::Settle => OrderEvent::Settled {
            id: OrderId(s.id),
            table_id: TableId(s.table),
        },
    }
}

/// The validate step's verdict on a command against a live order: a
/// creation command is structurally inapplicable to an already-created
/// aggregate and is rejected; every other command maps to its event.
pub open spec fn order_validate(s: OrderView, c: OrderCommand) -> Result<OrderEvent, ValidationError> {
    if c is Create {
        Err(ValidationError)
    } else {
        Ok(order_event_of(s, c))
    }
}

/// How an already-validated event transforms the order's state. `Created`
/// is ignored by a live order; `Settled` leaves the state untouched (it
/// terminates the actor instead).
pub open spec fn order_apply_view(s: OrderView, e: OrderEvent) -> OrderView {
    match e {
        OrderEvent::AddedProducts { products, .. } => OrderView {
            id: s.id,
            table: s.table,
            products: s.products.push(products@),
        },
        _ => s,
    }
}

/// Whether `e` ends the order's mutable lifetime.
pub open spec fn order_terminal(e: OrderEvent) -> bool {
    e is Settled
}

/// The initial state that the creation event denotes. Meaningful only when
/// `e` is `Created`.
pub open spec fn order_first_view(e: OrderEvent) -> OrderView {
    OrderView { id: e->Created_id@, table: e->Created_table@, products: Seq::empty() }
}

/// A replayable history for order `id`: non-empty, opened by the creation
/// event carrying `id`, and free of terminal events. A terminal event
/// anywhere in a history makes it unrecoverable for replay.
pub open spec fn valid_order_history(id: u128, log: Seq<OrderEvent>) -> bool {
    &&& log.len() > 0
    &&& log[0] matches OrderEvent::Created { id: first_id, .. } && first_id@ == id
    &&& forall|i: int| 0 <= i < log.len() ==> !order_terminal(#[trigger] log[i])
}

/// The state reached by folding a history from its creation event.
/// Meaningful when the history is valid.
pub open spec fn order_replay_state(log: Seq<OrderEvent>) -> OrderView
    decreases log.len(),
{
    if log.len() <= 1 {
        order_first_view(log[0])
    } else {
        order_apply_view(order_replay_state(log.drop_last()), log.last())
    }
}

/// Replay keeps the identity that the creation event carries.
pub proof fn lemma_order_replay_id(id: u128, log: Seq<OrderEvent>)
    requires
        valid_order_history(id, log),
    ensures
        order_replay_state(log).id == id,
    decreases log.len(),
{
    if log.len() > 1 {
        let l2 = log.drop_last();
        assert(l2[0] == log[0]);
        assert forall|i: int| 0 <= i < l2.len() implies !order_terminal(#[trigger] l2[i]) by {
            assert(l2[i] == log[i]);
        }
        lemma_order_replay_id(id, l2);
    }
}

impl Order {
    pub fn new(id: OrderId, table: TableId) -> (r: Order)
        ensures
            r@ == (OrderView { id: id@, table: table@, products: Seq::empty() }),
    {
        let r = Order { id, table, products: Vec::new() };
        proof {
            assert(r.products@.map_values(|b: ProductBatch| b@) =~= Seq::<Map<u128, i32>>::empty());
        }
        r
    }

    pub fn id(&self) -> (r: &OrderId)
        ensures
            r@ == self@.id,
    {
        &self.id
    }

    pub fn table(&self) -> (r: &TableId)
        ensures
            r@ == self@.table,
    {
        &self.table
    }

    pub fn products(&self) -> (r: &Vec<ProductBatch>)
        ensures
            r@.len() == self@.products.len(),
            forall|i: int| 0 <= i < r@.len() ==> #[trigger] r@[i]@ == self@.products[i],
    {
        &self.products
    }

    /// Validate step: pure and side-effect free. A creation command is
    /// structurally inapplicable to an order that already exists and is
    /// rejected; every other command is answered with its event.
    pub fn publish(&self, command: OrderCommand) -> (r: Result<OrderEvent, ValidationError>)
        ensures
            r == order_validate(self@, command),
    {
        match command {
            OrderCommand::Create { .. } => Err(ValidationError),
            OrderCommand::AddProducts { products } => Ok(OrderEvent::AddedProducts {
                id: self.id,
                products,
            }),
            OrderCommand::Settle => Ok(OrderEvent::Settled {
                id: self.id,
                table_id: self.table,
            }),
        }
    }

    /// Apply step for an already-validated event: mutate the in-memory
    /// state and report whether the actor must be terminated. The same
    /// transition serves live operation and replay.
    pub fn apply(&mut self, event: &OrderEvent) -> (directive: Directive)
        ensures
            final(self)@ == order_apply_view(old(self)@, *event),
            directive == (if order_terminal(*event) {
                Directive::Terminate
            } else {
                Directive::Continue
            }),
    {
        match event {
            OrderEvent::AddedProducts { products, .. } => {
                let dup = products.duplicate();
                self.products.push(dup);
                proof {
                    assert(self.products@.map_values(|b: ProductBatch| b@) =~= old(
                        self,
                    ).products@.map_values(|b: ProductBatch| b@).push(dup@));
                }
                Directive::Continue
            },
            OrderEvent::Settled { .. } => Directive::Terminate,
            OrderEvent::Created { .. } => Directive::Continue,
        }
    }

    /// Projection constructor: consume the history's first record, which
    /// must be the creation event.
    pub fn first(event: OrderEvent) -> (r: Result<Order, FormationError>)
        ensures
            event is Created ==> (r matches Ok(o) && o@ == order_first_view(event)),
            !(event is Created) ==> r == Err::<Order, FormationError>(FormationError),
    {
        match event {
            OrderEvent::Created { id, table } => Ok(Order::new(id, table)),
            _ => Err(FormationError),
        }
    }

    /// Build the initial state directly from the creation command; any
    /// other command cannot form an order.
    pub fn try_from(value: (OrderId, OrderCommand)) -> (r: Result<Order, FormationError>)
        ensures
            value.1 matches OrderCommand::Create { table } ==> (r matches Ok(o) && o@ == (
            OrderView { id: value.0@, table: table@, products: Seq::empty() })),
            !(value.1 is Create) ==> r == Err::<Order, FormationError>(FormationError),
    {
        match value.1 {
            OrderCommand::Create { table } => Ok(Order::new(value.0, table)),
            _ => Err(FormationError),
        }
    }
}

} // verus!
