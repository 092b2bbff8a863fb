//! The verified core of a client for TDengine, over REST and over native WebSocket.
//!
//! Everything that the client computes or decides is here, and proved: what a configuration may
//! be, what SQL a batch of points becomes, what a response means, which request comes next, when a
//! request is admitted, repeated or given up, and what a caller is told. The crate makes no
//! connection and reads no clock: the requests that it asks for are made elsewhere, and what came
//! of them is handed back to it.
//!
//! # Modules
//!
//! - [`config`]: limits, defaults, environment, TOML, validation and endpoints.
//! - [`client`]: SQL, responses, the state of the pool, and the steps of writing, querying and
//!   connecting.
//! - [`native`]: the WebSocket side: handshake, frames, status codes, sessions.
//! - [`batcher`]: points gathered until a batch is due.
//! - [`retry`]: how often and after what delay a failed request is made again.
//! - [`stream`]: the rows of a query, one after another.
//! - [`metrics`]: counters and their text for Prometheus.
//! - [`error`] and [`point`]: what fails and what is stored.
//! - [`operations`]: laws on what the operations of these modules do.
//! - [`text`], [`number`], [`ip`], [`duration`], [`json`]: what the others are built on.
//!
//! # SQL injection
//!
//! All that callers bring into a statement is either checked or escaped: names of super tables and
//! databases are words of letters, digits and underscores with a limited length; tags are written
//! in hexadecimal in the names of tables; texts are quoted, and no text ends its own quotes; time
//! stamps are decimal numbers. See [`build_insert_sql_chunks`].
//!
//! # Calling this crate
//!
//! Each function states in `requires` what it needs. Code that is not verified has to test that
//! before the call.

pub mod batcher;
pub mod client;
pub mod config;
pub mod duration;
pub mod error;
pub mod ip;
pub mod json;
pub mod metrics;
pub mod native;
pub mod number;
pub mod operations;
pub mod point;
pub mod retry;
pub mod stream;
pub mod text;

pub use batcher::{BatcherCloseError, BatcherCloseReport, WriteBatcher, WriteBatcherConfig};
pub use client::{
    build_insert_sql_chunks, BatchWritePartialError, BatchWriteReport, TaosClient, TaosExecResult,
    TaosHealth, TaosPool, TaosPoolStats,
};
pub use config::{
    hard_max_close_timeout, hard_max_timeout, TaosConfig, TaosConfigBuilder, TransportMode,
    TsPrecision, DEFAULT_DATABASE, DEFAULT_HOST, DEFAULT_PORT, DEFAULT_USER,
    ENV_ACQUIRE_TIMEOUT_MS, ENV_BATCH_MAX_BYTES, ENV_BATCH_MAX_ROWS, ENV_CLOSE_TIMEOUT_MS,
    ENV_DATABASE, ENV_HOST, ENV_HOSTS, ENV_MAX_IN_FLIGHT, ENV_MAX_QUERY_ROWS,
    ENV_MAX_RESPONSE_BYTES, ENV_PASSWORD, ENV_PORT, ENV_PRECISION, ENV_PREFIX, ENV_TIMEOUT_MS,
    ENV_TLS, ENV_TLS_CA_FILE, ENV_TRANSPORT, ENV_USER, ENV_WRITE_MAX_ATTEMPTS,
    HARD_MAX_BATCH_BYTES, HARD_MAX_BATCH_ROWS, HARD_MAX_IN_FLIGHT, HARD_MAX_QUERY_ROWS,
    HARD_MAX_RESPONSE_BYTES, HARD_MAX_WRITE_MAX_ATTEMPTS,
};
pub use error::{IoFault, TaosError, TaosResult};
pub use metrics::{ws_probe_totals, TaosMetricsSnapshot};
pub use native::{build_native_ws_url, validate_mode};
pub use point::TaosPoint;
pub use retry::RetryPolicy;
pub use stream::TaosQueryStream;
