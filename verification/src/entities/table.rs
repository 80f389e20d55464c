//! The dining-table aggregate: identity fixed at creation, display name as
//! the only mutable field. The designated terminal event is `Deregistered`.

use vstd::prelude::*;

use crate::entities::Directive;
use crate::errors::{FormationError, ValidationError};
use crate::io::command::TableCommand;
use crate::io::event::TableEvent;

verus! {

/// Opaque 128-bit identity of one dining-table aggregate.
#[derive(Debug, Clone, Copy, PartialEq, Eq, Hash, Structural)]
pub struct TableId(pub u128);

impl View for TableId {
    type V = u128;

    open spec fn view(&self) -> u128 {
        self.0
    }
}

impl TableId {
    pub fn new(id: u128) -> (r: TableId)
        ensures
            r@ == id,
    {
        TableId(id)
    }
}

/// A table's display string. Emptiness is not validated.
#[derive(Debug, Clone, PartialEq, Eq)]
pub struct TableName(pub String);

impl View for TableName {
    type V = Seq<char>;

    open spec fn view(&self) -> Seq<char> {
        self.0@
    }
}

impl TableName {
    pub fn new(name: String) -> (r: Self)
        ensures
            r@ == name@,
    {
        TableName(name)
    }

    /// A value-equal copy of the name.
    pub fn duplicate(&self) -> (r: Self)
        ensures
            r == *self,
    {
        TableName(self.0.clone())
    }
}

/// The abstract state of one table aggregate.
pub struct TableView {
    pub id: u128,
    pub name: Seq<char>,
}

/// A dining table: identity plus its current display name. State changes
/// only through `apply`.
#[derive(Debug, Clone, PartialEq, Eq)]
pub struct Table {
    id: TableId,
    name: TableName,
}

impl View for Table {
    type V = TableView;

    closed spec fn view(&self) -> TableView {
        TableView { id: self.id@, name: self.name@ }
    }
}

/// The event that the table's validate step produces for an accepted
/// command in state `s`. Meaningful for the commands a live table
/// accepts; the registration command is rejected by `table_validate`.
pub open spec fn table_event_of(s: TableView, c: TableCommand) -> TableEvent {
    match c {
        TableCommand::Register { name } => TableEvent::Registered { id: TableId(s.id), name },
        TableCommand::Rename { name } => TableEvent::Renamed { id: TableId(s.id), name },
        TableCommand::Deregister => TableEvent::Deregistered { id: TableId(s.id) },
    }
}

/// The validate step's verdict on a command against a live table: the
/// registration command is structurally inapplicable to an
/// already-registered aggregate and is rejected; every other command maps
/// to its event.
pub open spec fn table_validate(s: TableView, c: TableCommand) -> Result<TableEvent, ValidationError> {
    if c is Register {
        Err(ValidationError)
    } else {
        Ok(table_event_of(s, c))
    }
}

/// How an already-validated event transforms the table's state.
pub open spec fn table_apply_view(s: TableView, e: TableEvent) -> TableView {
    match e {
        TableEvent::Registered { name, .. } => TableView { id: s.id, name: name@ },
        TableEvent::Renamed { name, .. } => TableView { id: s.id, name: name@ },
        TableEvent::Deregistered { .. } => s,
    }
}

/// Whether `e` ends the table's mutable lifetime.
pub open spec fn table_terminal(e: TableEvent) -> bool {
    e is Deregistered
}

/// The initial state that the registration event denotes. Meaningful only
/// when `e` is `Registered`.
pub open spec fn table_first_view(e: TableEvent) -> TableView {
    TableView { id: e->Registered_id@, name: e->Registered_name@ }
}

/// A replayable history for table `id`: non-empty, opened by the
/// registration event carrying `id`, and free of terminal events.
pub open spec fn valid_table_history(id: u128, log: Seq<TableEvent>) -> bool {
    &&& log.len() > 0
    &&& log[0] matches TableEvent::Registered { id: first_id, .. } && first_id@ == id
    &&& forall|i: int| 0 <= i < log.len() ==> !table_terminal(#[trigger] log[i])
}

/// The state reached by folding a history from its registration event.
pub open spec fn table_replay_state(log: Seq<TableEvent>) -> TableView
    decreases log.len(),
{
    if log.len() <= 1 {
        table_first_view(log[0])
    } else {
        table_apply_view(table_replay_state(log.drop_last()), log.last())
    }
}

/// Replay keeps the identity that the registration event carries.
pub proof fn lemma_table_replay_id(id: u128, log: Seq<TableEvent>)
    requires
        valid_table_history(id, log),
    ensures
        table_replay_state(log).id == id,
    decreases log.len(),
{
    if log.len() > 1 {
        let l2 = log.drop_last();
        assert(l2[0] == log[0]);
        assert forall|i: int| 0 <= i < l2.len() implies !table_terminal(#[trigger] l2[i]) by {
            assert(l2[i] == log[i]);
        }
        lemma_table_replay_id(id, l2);
    }
}

impl Table {
    pub fn new(id: TableId, name: TableName) -> (r: Table)
        ensures
            r@ == (TableView { id: id@, name: name@ }),
    {
        Table { id, name }
    }

    pub fn id(&self) -> (r: &TableId)
        ensures
            r@ == self@.id,
    {
        &self.id
    }

    pub fn name(&self) -> (r: &TableName)
        ensures
            r@ == self@.name,
    {
        &self.name
    }

    /// Validate step: pure and side-effect free. A registration command is
    /// structurally inapplicable to a table that already exists and is
    /// rejected; every other command is answered with its event.
    pub fn publish(&self, command: TableCommand) -> (r: Result<TableEvent, ValidationError>)
        ensures
            r == table_validate(self@, command),
    {
        match command {
            TableCommand::Register { .. } => Err(ValidationError),
            TableCommand::Rename { name } => Ok(TableEvent::Renamed { id: self.id, name }),
            TableCommand::Deregister => Ok(TableEvent::Deregistered { id: self.id }),
        }
    }

    /// Apply step for an already-validated event: mutate the in-memory
    /// state and report whether the actor must be terminated.
    pub fn apply(&mut self, event: &TableEvent) -> (directive: Directive)
        ensures
            final(self)@ == table_apply_view(old(self)@, *event),
            directive == (if table_terminal(*event) {
                Directive::Terminate
            } else {
                Directive::Continue
            }),
    {
        match event {
            TableEvent::Registered { name, .. } => {
                self.name = name.duplicate();
                Directive::Continue
            },
            TableEvent::Renamed { name, .. } => {
                self.name = name.duplicate();
                Directive::Continue
            },
            TableEvent::Deregistered { .. } => Directive::Terminate,
        }
    }

    /// Projection constructor: consume the history's first record, which
    /// must be the registration event.
    pub fn first(event: TableEvent) -> (r: Result<Table, FormationError>)
        ensures
            event is Registered ==> (r matches Ok(t) && t@ == table_first_view(event)),
            !(event is Registered) ==> r == Err::<Table, FormationError>(FormationError),
    {
        match event {
            TableEvent::Registered { id, name } => Ok(Table::new(id, name)),
            _ => Err(FormationError),
        }
    }
}

} // verus!
