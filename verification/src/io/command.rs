//! Command vocabularies. Each aggregate is created by its designated
//! "first" command, mutated by intermediate commands, and ended by its
//! terminal command.

use vstd::prelude::*;

use crate::entities::order::ProductBatch;
use crate::entities::table::{TableId, TableName};

verus! {

/// Commands addressed to an order aggregate.
#[derive(Debug, Clone, PartialEq, Eq)]
pub enum OrderCommand {
    /// Creation command: open an order for the given table.
    Create { table: TableId },
    /// Append one whole batch of products to the order.
    AddProducts { products: ProductBatch },
    /// Terminal command: settle the order.
    Settle,
}

/// Commands addressed to a table aggregate.
#[derive(Debug, Clone, PartialEq, Eq)]
pub enum TableCommand {
    /// Creation command: register a table under a display name.
    Register { name: TableName },
    /// Change the table's display name.
    Rename { name: TableName },
    /// Terminal command: remove the table from service.
    Deregister,
}

} // verus!
