//! Applies a directory of SQL migration files to a database exactly once
//! each, tracking applied migrations in a `migrations` control table and
//! aborting cleanly on the first failure.
//!
//! The crate holds the verified core: DSN parsing, configuration
//! resolution, lexicographic ordering of migration files, and the
//! migration-run state machine. The unverified binary around it performs
//! the actual file and database I/O and feeds the outcomes back into the
//! state machine as events.

pub mod config;
pub mod dsn;
pub mod machine;
pub mod order;
