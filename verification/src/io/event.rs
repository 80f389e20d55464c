//! Event vocabularies: the records that accepted commands leave in an
//! aggregate's event log.

use vstd::prelude::*;

use crate::entities::order::{OrderId, ProductBatch};
use crate::entities::table::{TableId, TableName};

verus! {

/// Events recorded for an order aggregate.
#[derive(Debug, Clone, PartialEq, Eq)]
pub enum OrderEvent {
    /// The order was opened for a table.
    Created { id: OrderId, table: TableId },
    /// One whole product batch was appended.
    AddedProducts { id: OrderId, products: ProductBatch },
    /// Terminal event: the order was settled.
    Settled { id: OrderId, table_id: TableId },
}

/// Events recorded for a table aggregate.
#[derive(Debug, Clone, PartialEq, Eq)]
pub enum TableEvent {
    /// The table was registered under a display name.
    Registered { id: TableId, name: TableName },
    /// The table's display name was changed.
    Renamed { id: TableId, name: TableName },
    /// Terminal event: the table was removed from service.
    Deregistered { id: TableId },
}

} // verus!
