//! End-to-end tests of the application service: creation, product
//! confirmation, settlement, replay, and the error taxonomy.

use restaurant_kernel::adapter::{find_or_replay, replay_to_latest};
use restaurant_kernel::entities::order::{OrderId, ProductBatch, ProductId, Quantity};
use restaurant_kernel::entities::table::TableId;
use restaurant_kernel::errors::{ApplicationError, InquiryError};
use restaurant_kernel::io::command::OrderCommand;
use restaurant_kernel::io::event::OrderEvent;
use restaurant_kernel::runtime::{EventLog, ProcessManager};
use restaurant_kernel::services::{OrderCommandService, ProductInquiryService};

/// A catalog that knows a fixed set of product ids.
struct Catalog {
    known: Vec<u128>,
}

impl ProductInquiryService for Catalog {
    type Response = u32;

    fn get_product(&self, id: &ProductId) -> Result<Option<u32>, InquiryError> {
        if self.known.contains(&id.0) {
            Ok(Some(1))
        } else {
            Ok(None)
        }
    }
}

/// A catalog whose transport always fails.
struct BrokenCatalog;

impl ProductInquiryService for BrokenCatalog {
    type Response = u32;

    fn get_product(&self, _id: &ProductId) -> Result<Option<u32>, InquiryError> {
        Err(InquiryError)
    }
}

fn batch(entries: &[(u128, i32)]) -> ProductBatch {
    let mut b = ProductBatch::new();
    for (p, q) in entries {
        b.insert(ProductId::new(*p), Quantity::new(*q));
    }
    b
}

#[test]
fn create_add_add_settle_scenario() {
    let svc = OrderCommandService;
    let mut manager = ProcessManager::new();
    let mut journal = EventLog::new();
    let catalog = Catalog { known: vec![101, 102] };
    let table = TableId::new(7);

    let id = svc
        .execute(&mut manager, &mut journal, &catalog, None, OrderCommand::Create { table })
        .expect("creation must succeed");
    assert_eq!(journal.len_of(id.0), 1);
    assert!(matches!(
        journal.event_at(id.0, 0),
        Some(OrderEvent::Created { table: t, .. }) if *t == table
    ));

    svc.execute(
        &mut manager,
        &mut journal,
        &catalog,
        Some(id),
        OrderCommand::AddProducts { products: batch(&[(101, 2)]) },
    )
    .expect("first batch must be accepted");
    assert_eq!(journal.len_of(id.0), 2);

    svc.execute(
        &mut manager,
        &mut journal,
        &catalog,
        Some(id),
        OrderCommand::AddProducts { products: batch(&[(102, 1)]) },
    )
    .expect("second batch must be accepted");
    assert_eq!(journal.len_of(id.0), 3);

    let live = manager.current_state(id).expect("actor must be live");
    assert_eq!(live.products().len(), 2);
    assert_eq!(live.products()[0], batch(&[(101, 2)]));
    assert_eq!(live.products()[1], batch(&[(102, 1)]));
    assert_eq!(*live.table(), table);
    assert_eq!(manager.current_version(id), Some(3));

    svc.execute(&mut manager, &mut journal, &catalog, Some(id), OrderCommand::Settle)
        .expect("settlement must succeed");
    assert_eq!(journal.len_of(id.0), 4);
    assert!(manager.find(id).is_none(), "terminal event must remove the actor");

    let afterwards = svc.execute(
        &mut manager,
        &mut journal,
        &catalog,
        Some(id),
        OrderCommand::AddProducts { products: batch(&[(101, 1)]) },
    );
    assert_eq!(afterwards, Err(ApplicationError::CorruptHistory));
    assert_eq!(journal.len_of(id.0), 4, "no event may follow settlement");
}

#[test]
fn add_products_rejects_unknown_product() {
    let svc = OrderCommandService;
    let mut manager = ProcessManager::new();
    let mut journal = EventLog::new();
    let catalog = Catalog { known: vec![101] };
    let table = TableId::new(1);

    let id = svc
        .execute(&mut manager, &mut journal, &catalog, None, OrderCommand::Create { table })
        .unwrap();
    let r = svc.execute(
        &mut manager,
        &mut journal,
        &catalog,
        Some(id),
        OrderCommand::AddProducts { products: batch(&[(101, 1), (999, 1)]) },
    );
    assert_eq!(r, Err(ApplicationError::NotFound));
    assert_eq!(journal.len_of(id.0), 1, "a rejected command must append no event");
    let live = manager.current_state(id).expect("actor stays live after rejection");
    assert_eq!(live.products().len(), 0);
}

#[test]
fn add_products_io_failure() {
    let svc = OrderCommandService;
    let mut manager = ProcessManager::new();
    let mut journal = EventLog::new();
    let table = TableId::new(2);

    let id = svc
        .execute(&mut manager, &mut journal, &BrokenCatalog, None, OrderCommand::Create { table })
        .unwrap();
    let r = svc.execute(
        &mut manager,
        &mut journal,
        &BrokenCatalog,
        Some(id),
        OrderCommand::AddProducts { products: batch(&[(5, 1)]) },
    );
    assert_eq!(r, Err(ApplicationError::Io));
    assert_eq!(journal.len_of(id.0), 1);
}

#[test]
fn mutating_command_requires_an_id() {
    let svc = OrderCommandService;
    let mut manager = ProcessManager::new();
    let mut journal = EventLog::new();
    let catalog = Catalog { known: vec![] };

    let r = svc.execute(&mut manager, &mut journal, &catalog, None, OrderCommand::Settle);
    assert_eq!(r, Err(ApplicationError::RequiredId));
}

#[test]
fn unknown_id_is_formation() {
    let svc = OrderCommandService;
    let mut manager = ProcessManager::new();
    let mut journal = EventLog::new();
    let catalog = Catalog { known: vec![] };

    let r = svc.execute(
        &mut manager,
        &mut journal,
        &catalog,
        Some(OrderId::new(42)),
        OrderCommand::Settle,
    );
    assert_eq!(r, Err(ApplicationError::Formation));
}

#[test]
fn creation_over_existing_identity_is_process_error() {
    let svc = OrderCommandService;
    let mut manager = ProcessManager::new();
    let mut journal = EventLog::new();
    let catalog = Catalog { known: vec![] };
    let table = TableId::new(3);

    let id = svc
        .execute(&mut manager, &mut journal, &catalog, None, OrderCommand::Create { table })
        .unwrap();
    let r = svc.execute_as(&mut manager, &mut journal, &catalog, id, OrderCommand::Create {
        table,
    });
    assert_eq!(r, Err(ApplicationError::Process));
}

#[test]
fn creation_command_on_live_actor_is_kernel_rejection() {
    let svc = OrderCommandService;
    let mut manager = ProcessManager::new();
    let mut journal = EventLog::new();
    let catalog = Catalog { known: vec![] };
    let table = TableId::new(9);

    let id = svc
        .execute(&mut manager, &mut journal, &catalog, None, OrderCommand::Create { table })
        .unwrap();
    let handle = manager.find(id).expect("actor is live");
    let r = manager.employ(&mut journal, &handle, OrderCommand::Create { table });
    assert_eq!(r, Err(ApplicationError::Kernel));
    assert_eq!(journal.len_of(id.0), 1, "a rejected command persists nothing");
    assert!(manager.find(id).is_some(), "the actor stays live");
}

#[test]
fn cached_handle_fails_after_settlement() {
    let svc = OrderCommandService;
    let mut manager = ProcessManager::new();
    let mut journal = EventLog::new();
    let catalog = Catalog { known: vec![] };
    let table = TableId::new(4);

    let id = svc
        .execute(&mut manager, &mut journal, &catalog, None, OrderCommand::Create { table })
        .unwrap();
    let handle = manager.find(id).expect("actor is live");
    svc.execute(&mut manager, &mut journal, &catalog, Some(id), OrderCommand::Settle).unwrap();

    let r = manager.employ(&mut journal, &handle, OrderCommand::Settle);
    assert_eq!(r, Err(ApplicationError::Process));
    assert_eq!(journal.len_of(id.0), 2);
}

#[test]
fn replay_rebuilds_live_state_after_restart() {
    let svc = OrderCommandService;
    let mut manager = ProcessManager::new();
    let mut journal = EventLog::new();
    let catalog = Catalog { known: vec![101] };
    let table = TableId::new(5);

    let id = svc
        .execute(&mut manager, &mut journal, &catalog, None, OrderCommand::Create { table })
        .unwrap();
    svc.execute(
        &mut manager,
        &mut journal,
        &catalog,
        Some(id),
        OrderCommand::AddProducts { products: batch(&[(101, 3)]) },
    )
    .unwrap();
    let before = manager.current_state(id).unwrap().clone();

    // A fresh registry, as after a restart: only the journal survives.
    let mut restarted = ProcessManager::new();
    let handle = find_or_replay(id, &mut restarted, &journal).expect("replay must succeed");
    assert_eq!(handle.id(), id);
    let rebuilt = restarted.current_state(id).unwrap();
    assert_eq!(*rebuilt, before, "replayed state must equal the live state");
    assert_eq!(restarted.current_version(id), Some(2));

    // Resolving again attaches to the live actor instead of spawning anew.
    let again = find_or_replay(id, &mut restarted, &journal).expect("second resolution attaches");
    assert_eq!(again.id(), id);
    assert_eq!(*restarted.current_state(id).unwrap(), before);
}

#[test]
fn replay_of_empty_history_is_formation() {
    let journal = EventLog::new();
    let r = replay_to_latest(&journal, OrderId::new(9));
    assert!(matches!(r, Err(ApplicationError::Formation)));
}

#[test]
fn replay_of_headless_history_is_corrupt() {
    let mut journal = EventLog::new();
    let id = OrderId::new(10);
    journal.append(id.0, OrderEvent::AddedProducts { id, products: batch(&[(1, 1)]) });
    let r = replay_to_latest(&journal, id);
    assert!(matches!(r, Err(ApplicationError::CorruptHistory)));
}

#[test]
fn replay_of_settled_history_is_corrupt() {
    let mut journal = EventLog::new();
    let id = OrderId::new(11);
    let table = TableId::new(6);
    journal.append(id.0, OrderEvent::Created { id, table });
    journal.append(id.0, OrderEvent::Settled { id, table_id: table });
    let r = replay_to_latest(&journal, id);
    assert!(matches!(r, Err(ApplicationError::CorruptHistory)));
}

#[test]
fn replay_of_foreign_history_is_corrupt() {
    let mut journal = EventLog::new();
    let id = OrderId::new(12);
    let other = OrderId::new(13);
    journal.append(id.0, OrderEvent::Created { id: other, table: TableId::new(1) });
    let r = replay_to_latest(&journal, id);
    assert!(matches!(r, Err(ApplicationError::CorruptHistory)));
}

#[test]
fn empty_batch_needs_no_confirmation() {
    let svc = OrderCommandService;
    let mut manager = ProcessManager::new();
    let mut journal = EventLog::new();
    let table = TableId::new(8);

    let id = svc
        .execute(&mut manager, &mut journal, &BrokenCatalog, None, OrderCommand::Create { table })
        .unwrap();
    let r = svc.execute(
        &mut manager,
        &mut journal,
        &BrokenCatalog,
        Some(id),
        OrderCommand::AddProducts { products: ProductBatch::new() },
    );
    assert_eq!(r, Ok(id));
    assert_eq!(journal.len_of(id.0), 2);
}
