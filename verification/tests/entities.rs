//! Unit tests of the aggregate state machines, value objects, and the
//! table projector.

use restaurant_kernel::adapter::{find_or_replay_table, replay_table_to_latest};
use restaurant_kernel::entities::order::{Order, OrderId, ProductBatch, ProductId, Quantity};
use restaurant_kernel::entities::table::{Table, TableId, TableName};
use restaurant_kernel::entities::Directive;
use restaurant_kernel::errors::{ApplicationError, FormationError, InquiryError, ValidationError};
use restaurant_kernel::io::command::{OrderCommand, TableCommand};
use restaurant_kernel::io::event::{OrderEvent, TableEvent};
use restaurant_kernel::runtime::table::{TableEventLog, TableProcessManager};
use restaurant_kernel::services::confirm_inquiry;

#[test]
fn value_objects_hold_their_values() {
    assert_eq!(Quantity::new(-3), Quantity::new(-3));
    assert_eq!(TableName::new("window".to_string()).0, "window");
    assert_eq!(OrderId::new(5).0, 5u128);
    assert_eq!(ProductId::new(6).0, 6u128);
    assert_eq!(TableId::new(7).0, 7u128);
}

#[test]
fn order_publish_maps_commands_to_events() {
    let id = OrderId::new(1);
    let table = TableId::new(2);
    let order = Order::new(id, table);

    let rejected = order.publish(OrderCommand::Create { table });
    assert_eq!(rejected, Err(ValidationError), "a live order rejects the creation command");

    let mut b = ProductBatch::new();
    b.insert(ProductId::new(9), Quantity::new(4));
    let added = order.publish(OrderCommand::AddProducts { products: b.clone() }).unwrap();
    assert_eq!(added, OrderEvent::AddedProducts { id, products: b });

    let settled = order.publish(OrderCommand::Settle).unwrap();
    assert_eq!(settled, OrderEvent::Settled { id, table_id: table });
}

#[test]
fn order_apply_appends_batches_and_signals_termination() {
    let id = OrderId::new(1);
    let table = TableId::new(2);
    let mut order = Order::new(id, table);
    assert_eq!(order.products().len(), 0);

    let mut b = ProductBatch::new();
    b.insert(ProductId::new(3), Quantity::new(2));
    let d = order.apply(&OrderEvent::AddedProducts { id, products: b.clone() });
    assert_eq!(d, Directive::Continue);
    assert_eq!(order.products().len(), 1);
    assert_eq!(order.products()[0], b);

    let d = order.apply(&OrderEvent::Created { id, table });
    assert_eq!(d, Directive::Continue);
    assert_eq!(order.products().len(), 1, "a creation event is ignored by a live order");

    let d = order.apply(&OrderEvent::Settled { id, table_id: table });
    assert_eq!(d, Directive::Terminate);
    assert_eq!(order.products().len(), 1, "settlement itself mutates nothing");
}

#[test]
fn order_first_requires_the_creation_event() {
    let id = OrderId::new(1);
    let table = TableId::new(2);
    let order = Order::first(OrderEvent::Created { id, table }).unwrap();
    assert_eq!(*order.id(), id);
    assert_eq!(*order.table(), table);
    assert_eq!(order.products().len(), 0);

    let r = Order::first(OrderEvent::Settled { id, table_id: table });
    assert_eq!(r, Err(FormationError));
}

#[test]
fn order_try_from_requires_the_creation_command() {
    let id = OrderId::new(1);
    let table = TableId::new(2);
    let order = Order::try_from((id, OrderCommand::Create { table })).unwrap();
    assert_eq!(*order.id(), id);
    assert_eq!(*order.table(), table);

    let r = Order::try_from((id, OrderCommand::Settle));
    assert_eq!(r, Err(FormationError));
}

#[test]
fn table_state_machine_renames_and_terminates() {
    let id = TableId::new(1);
    let mut table = Table::new(id, TableName::new("one".to_string()));
    assert_eq!(*table.name(), TableName::new("one".to_string()));

    let rejected = table.publish(TableCommand::Register { name: TableName::new("x".to_string()) });
    assert_eq!(rejected, Err(ValidationError), "a live table rejects the registration command");

    let ev = table.publish(TableCommand::Rename { name: TableName::new("two".to_string()) })
        .unwrap();
    assert_eq!(ev, TableEvent::Renamed { id, name: TableName::new("two".to_string()) });
    let d = table.apply(&ev);
    assert_eq!(d, Directive::Continue);
    assert_eq!(*table.name(), TableName::new("two".to_string()));

    let ev = table.publish(TableCommand::Deregister).unwrap();
    assert_eq!(ev, TableEvent::Deregistered { id });
    let d = table.apply(&ev);
    assert_eq!(d, Directive::Terminate);
}

#[test]
fn table_replay_folds_renames() {
    let id = TableId::new(1);
    let mut journal = TableEventLog::new();
    journal.append(id.0, TableEvent::Registered { id, name: TableName::new("a".to_string()) });
    journal.append(id.0, TableEvent::Renamed { id, name: TableName::new("b".to_string()) });
    journal.append(id.0, TableEvent::Renamed { id, name: TableName::new("c".to_string()) });
    let (table, version) = replay_table_to_latest(&journal, id).unwrap();
    assert_eq!(*table.name(), TableName::new("c".to_string()));
    assert_eq!(*table.id(), id);
    assert_eq!(version, 3);
}

#[test]
fn table_replay_rejects_empty_and_terminal_histories() {
    let id = TableId::new(1);
    let r = replay_table_to_latest(&TableEventLog::new(), id);
    assert!(matches!(r, Err(ApplicationError::Formation)));

    let mut deregistered = TableEventLog::new();
    deregistered.append(id.0, TableEvent::Registered { id, name: TableName::new("a".to_string()) });
    deregistered.append(id.0, TableEvent::Deregistered { id });
    let r = replay_table_to_latest(&deregistered, id);
    assert!(matches!(r, Err(ApplicationError::CorruptHistory)));

    let mut headless = TableEventLog::new();
    headless.append(id.0, TableEvent::Renamed { id, name: TableName::new("x".to_string()) });
    let r = replay_table_to_latest(&headless, id);
    assert!(matches!(r, Err(ApplicationError::CorruptHistory)));
}

#[test]
fn table_runtime_renames_and_deregisters() {
    let id = TableId::new(21);
    let mut journal = TableEventLog::new();
    let mut manager = TableProcessManager::new();

    // Registration seeds the history; the registry resolves it on demand.
    journal.append(id.0, TableEvent::Registered { id, name: TableName::new("bay".to_string()) });
    let handle = find_or_replay_table(id, &mut manager, &journal).expect("replay must succeed");
    assert_eq!(handle.id(), id);
    assert_eq!(manager.current_version(id), Some(1));

    let r = manager.employ(
        &mut journal,
        &handle,
        TableCommand::Rename { name: TableName::new("terrace".to_string()) },
    );
    assert_eq!(r, Ok(()));
    assert_eq!(journal.len_of(id.0), 2);
    let live = manager.current_state(id).expect("actor is live");
    assert_eq!(*live.name(), TableName::new("terrace".to_string()));

    // A registration command reaching the live actor is rejected.
    let r = manager.employ(
        &mut journal,
        &handle,
        TableCommand::Register { name: TableName::new("again".to_string()) },
    );
    assert_eq!(r, Err(ApplicationError::Kernel));
    assert_eq!(journal.len_of(id.0), 2, "a rejected command persists nothing");

    let r = manager.employ(&mut journal, &handle, TableCommand::Deregister);
    assert_eq!(r, Ok(()));
    assert_eq!(journal.len_of(id.0), 3);
    assert!(manager.find(id).is_none(), "terminal event must remove the actor");

    let r = manager.employ(&mut journal, &handle, TableCommand::Deregister);
    assert_eq!(r, Err(ApplicationError::Process));
    let r = find_or_replay_table(id, &mut manager, &journal);
    assert!(matches!(r, Err(ApplicationError::CorruptHistory)));
}

#[test]
fn confirm_inquiry_maps_outcomes() {
    assert_eq!(confirm_inquiry::<u32>(Ok(Some(1))), Ok(()));
    assert_eq!(confirm_inquiry::<u32>(Ok(None)), Err(ApplicationError::NotFound));
    assert_eq!(confirm_inquiry::<u32>(Err(InquiryError)), Err(ApplicationError::Io));
}

#[test]
fn error_messages() {
    assert_eq!(ApplicationError::RequiredId.message(), "Request requires an identifier");
    assert_eq!(ApplicationError::NotFound.message(), "Resource not found.");
    assert_eq!(ApplicationError::Io.message(), "Failed to query external api.");
    assert_eq!(FormationError.message(), "input cannot be converted.");
    assert_eq!(InquiryError.message(), "Failed to inquiry for service.");
}

#[test]
fn batch_duplicate_is_value_equal() {
    let mut b = ProductBatch::new();
    b.insert(ProductId::new(1), Quantity::new(2));
    b.insert(ProductId::new(3), Quantity::new(4));
    assert_eq!(b.duplicate(), b);
}
