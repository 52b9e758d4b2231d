//! Layered configuration resolution and failure-log batching for a
//! command-line deployment tool.
//!
//! The crate holds the decision logic only: which source of a setting wins,
//! how a line of the failure log decodes, which records form the most recent
//! batch, and which source files a batch refers to. Reading and writing files
//! is left to the caller, who hands the library plain values.

pub mod batch;
pub mod context;
pub mod error;
pub mod explain;
pub mod order;
pub mod record;
pub mod settings;
pub mod store;
pub mod text;

pub use batch::{decode_log, extract_last_batch, last_batch};
pub use context::RequestContext;
pub use error::LogError;
pub use explain::{ErrorLogManager, ExplainStruct, FileContents};
pub use record::ErrorLog;
pub use store::{Config, ConfigManager, GlobalConfigManager, LocalConfigManager};
pub use settings::{ApiKey, ConfigError, GlobalConfig, KeySource, ProjectConfig};
pub use text::{join_fields, split_fields, split_lines};
