//! Any other shell, taken to read `.profile` and to write statements about
//! `PATH` as bash does.

use vstd::prelude::*;
use crate::utils::shell::handlers::{
    config_name, default_config_location, home_or_root, path_in, user_config_location, ShellHandler,
};
use crate::utils::shell::types::ShellType;

verus! {

/// The handler for the plain POSIX shell.
pub struct GenericHandler {
    config_path: String,
}

impl GenericHandler {
    /// A handler for the startup file of the current user.
    pub fn new() -> (handler: Self)
        ensures
            handler.shell() == ShellType::Generic,
            exists|home: Option<Seq<char>>|
                handler.location() == path_in(
                    home_or_root(home),
                    config_name(ShellType::Generic),
                ),
    {
        GenericHandler { config_path: user_config_location(ShellType::Generic) }
    }

    /// A handler for the startup file in the home directory `home`.
    pub fn in_home(home: &str) -> (handler: Self)
        ensures
            handler.shell() == ShellType::Generic,
            handler.location() == path_in(home@, config_name(ShellType::Generic)),
    {
        GenericHandler { config_path: default_config_location(ShellType::Generic, home) }
    }
}

impl ShellHandler for GenericHandler {
    open spec fn shell(&self) -> ShellType {
        ShellType::Generic
    }

    closed spec fn location(&self) -> Seq<char> {
        self.config_path@
    }

    fn get_shell_type(&self) -> ShellType {
        ShellType::Generic
    }

    fn get_config_path(&self) -> String {
        self.config_path.clone()
    }
}

} // verus!
