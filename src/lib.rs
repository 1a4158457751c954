//! An in-memory key/value store with requests applied as single steps,
//! pluggable handlers that judge request descriptors, and a dispatcher that
//! gates each request on its handler and records a status per key.
pub mod config;
pub mod database;
pub mod dispatch;
pub mod laws;
pub mod operation;
pub mod server;
pub mod table;

pub use config::{process_items, Config, ConfigFault, DefaultHandler, Handler, Status, ValidationError};
pub use database::{Database, MemoryDatabase, StoreError};
pub use dispatch::run_with_store;
pub use operation::DbOperation;
pub use server::{process_data, ServerConfig, Service, ServiceError, MAX_SIZE};
pub use text::{parse_snapshot, render_snapshot};
pub mod text;
