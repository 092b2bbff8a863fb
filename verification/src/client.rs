//! The client: SQL, responses, the pool's state, and the decisions between its requests.

use vstd::prelude::*;

pub mod batch;
pub mod connect;
pub mod insert;
pub mod pool;
pub mod query;
pub mod response;
pub mod server;
pub mod sql;
pub mod types;

pub use insert::build_insert_sql_chunks;
pub use pool::TaosPool;
pub use types::{
    BatchWritePartialError, BatchWriteReport, TaosExecResult, TaosHealth, TaosPoolStats,
};

verus! {

/// Another name for [`TaosPool`].
pub type TaosClient = TaosPool;

} // verus!
