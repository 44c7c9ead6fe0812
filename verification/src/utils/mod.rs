//! Paths, shells and their configuration files.

pub mod path;
pub mod path_scanner;
pub mod shell;

pub use path::expand_path;
pub use shell::update_shell_config;
