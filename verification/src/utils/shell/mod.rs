//! Shell startup files: the syntax in which each shell family sets `PATH`,
//! and the rewriting of a file so that it sets `PATH` to a given list.

use vstd::prelude::*;
use crate::outside::{is_comment_time, local_time};
use crate::text::{chars_of, push_all, string_of, texts};

pub mod factory;
pub mod handlers;
pub mod laws;
pub mod remains;
pub mod rewrite;
pub mod roundtrip;
pub mod types;

pub use self::handlers::ShellHandler;
pub use self::types::ShellType;

use self::factory::{detect, family_of};
use self::handlers::{config_name, default_config_location, expand_all, expanded_from, path_in};
use self::rewrite::{rewrite, rewritten};

verus! {

/// The new text of the startup file of the shell `shell`, whose text so far
/// is `content`, when `PATH` is to be `entries`: `content` rewritten in the
/// syntax of the shell's family for the directories `entries`, each of them
/// expanded, the new statement marked with the time of the call.
pub fn update_shell_config(shell: &str, content: &str, entries: &[String]) -> (out: String)
    ensures
        exists|stamp: Seq<char>, written: Seq<Seq<char>>|
            is_comment_time(stamp) && expanded_from(texts(entries@), written) && out@ == rewritten(
                family_of(shell@),
                content@,
                written,
                stamp,
            ),
{
    let stamp = local_time("%Y-%m-%d %H:%M:%S");
    let written = expand_all(entries);
    rewrite(detect(shell), content, written.as_slice(), stamp.as_str())
}

/// The family of the shell `shell` and the path of its startup file in the
/// home directory `home`.
pub fn detect_shell_config(shell: &str, home: &str) -> (found: (ShellType, String))
    ensures
        found.0 == family_of(shell@),
        found.1@ == path_in(home@, config_name(found.0)),
{
    let family = detect(shell);
    (family, default_config_location(family, home))
}

/// The name under which a copy of the file at `path` is kept before the
/// file is rewritten at the time `stamp`.
pub open spec fn backup_name(path: Seq<char>, stamp: Seq<char>) -> Seq<char> {
    path + ".bak_"@ + stamp
}

/// A shell and its startup file.
pub struct ShellConfig {
    shell_type: ShellType,
    config_path: String,
}

impl ShellConfig {
    /// The family of the shell.
    pub closed spec fn family(&self) -> ShellType {
        self.shell_type
    }

    /// The path of the startup file.
    pub closed spec fn location(&self) -> Seq<char> {
        self.config_path@
    }

    /// The configuration of the shell `shell` for the home directory `home`.
    pub fn new(shell: &str, home: &str) -> (config: Self)
        ensures
            config.family() == family_of(shell@),
            config.location() == path_in(home@, config_name(family_of(shell@))),
    {
        let (shell_type, config_path) = detect_shell_config(shell, home);
        ShellConfig { shell_type, config_path }
    }

    /// The path of the startup file.
    pub fn config_path(&self) -> (path: &String)
        ensures
            path@ == self.location(),
    {
        &self.config_path
    }

    /// The family of the shell.
    pub fn shell_type(&self) -> (family: &ShellType)
        ensures
            *family == self.family(),
    {
        &self.shell_type
    }

    /// The path under which a copy of the startup file is kept before a
    /// rewrite at the time `stamp`.
    pub fn backup_path(&self, stamp: &str) -> (path: String)
        ensures
            path@ == backup_name(self.location(), stamp@),
    {
        let mut out = chars_of(self.config_path.as_str());
        push_all(&mut out, &chars_of(".bak_"));
        push_all(&mut out, &chars_of(stamp));
        string_of(&out)
    }

    /// The new text of the startup file, whose text so far is `content`,
    /// when `PATH` is to be `entries` and the time is `stamp`.
    pub fn updated_content(&self, content: &str, entries: &[String], stamp: &str) -> (out: String)
        ensures
            out@ == rewritten(self.family(), content@, texts(entries@), stamp@),
    {
        rewrite(self.shell_type, content, entries, stamp)
    }
}

} // verus!
