//! The typed result messages the execution side posts back to the
//! consuming view, one per completed operation, each carrying the
//! originating source path so the consumer can route it.

use vstd::prelude::*;

verus! {

/// One result of a dispatched request.
///
/// `RowCountResolved` and `PageResolved` also carry the literal query
/// text that was executed, for audit display and for the consumer's
/// stale-result check; `Failed` carries it when one was built.
#[derive(Debug, Clone)]
pub enum BackendMessage {
    SourceOpened { path: String },
    SchemaResolved { path: String, columns: Vec<String> },
    RowCountResolved { path: String, count: usize, executed_sql: String },
    PageResolved { path: String, rows: Vec<Vec<String>>, executed_sql: String },
    Failed { path: Option<String>, message: String, executed_sql: Option<String> },
}

} // verus!
