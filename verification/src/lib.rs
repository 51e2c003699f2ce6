//! The decisions of an actor runtime: supervision and restarts, shutdown,
//! mailbox metering, the registry of keyed actors, and the expansion of an
//! actor's `impl` block into its message type and its handle.
pub mod config;
pub mod context;
pub mod error;
pub mod expand;
pub mod expand_laws;
pub mod handle;
pub mod keys;
pub mod life;
pub mod mailbox;
pub mod meter;
pub mod naming;
pub mod obs;
pub mod refs;
pub mod registry;
pub mod rt;
pub mod shape;
pub mod steps;
pub mod syntax;
pub mod task;
pub mod text;
pub mod time;

pub use config::{RestartPolicy, ShutdownMode, SpawnConfig, SpawnGuard};
pub use context::Context;
pub use error::{AskError, SpawnError, TellError};
pub use handle::{SharedHandle, SpawnHandle};
pub use mailbox::MailboxTx;
pub use meter::{MailboxMeter, ProcessGuard};
pub use refs::{MessageKind, RefMetrics};
pub use rt::System;
