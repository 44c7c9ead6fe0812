//! Backups of `PATH` and of shell configuration files.

pub mod mode;
pub mod store;

pub use self::store::create_backup;
