//! Ksh. Its statements about `PATH` are written as in bash.

use vstd::prelude::*;
use crate::utils::shell::handlers::{
    config_name, default_config_location, home_or_root, path_in, user_config_location, ShellHandler,
};
use crate::utils::shell::types::ShellType;

verus! {

/// The handler for ksh.
pub struct KshHandler {
    config_path: String,
}

impl KshHandler {
    /// A handler for the startup file of the current user.
    pub fn new() -> (handler: Self)
        ensures
            handler.shell() == ShellType::Ksh,
            exists|home: Option<Seq<char>>|
                handler.location() == path_in(
                    home_or_root(home),
                    config_name(ShellType::Ksh),
                ),
    {
        KshHandler { config_path: user_config_location(ShellType::Ksh) }
    }

    /// A handler for the startup file in the home directory `home`.
    pub fn in_home(home: &str) -> (handler: Self)
        ensures
            handler.shell() == ShellType::Ksh,
            handler.location() == path_in(home@, config_name(ShellType::Ksh)),
    {
        KshHandler { config_path: default_config_location(ShellType::Ksh, home) }
    }
}

impl ShellHandler for KshHandler {
    open spec fn shell(&self) -> ShellType {
        ShellType::Ksh
    }

    closed spec fn location(&self) -> Seq<char> {
        self.config_path@
    }

    fn get_shell_type(&self) -> ShellType {
        ShellType::Ksh
    }

    fn get_config_path(&self) -> String {
        self.config_path.clone()
    }
}

} // verus!
