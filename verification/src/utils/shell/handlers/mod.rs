//! One handler for each family of shells. A handler knows where the family
//! keeps its startup file and reads and writes statements about `PATH` in the
//! family's syntax.

use vstd::prelude::*;
use crate::outside::{expands_to, home_dir, is_comment_time, local_time};
use crate::text::{chars_of, push_all, texts};
use crate::utils::path::expand_path;
use crate::utils::shell::rewrite::{
    extract_entries, extracted, locate_declarations, located, render_declaration, rendered,
    rewrite, rewritten,
};
use crate::utils::shell::types::{declared, PathModification, ShellType};

pub mod bash;
pub mod fish;
pub mod generic;
pub mod ksh;
pub mod tcsh;
pub mod zsh;

pub use bash::BashHandler;
pub use fish::FishHandler;
pub use generic::GenericHandler;
pub use ksh::KshHandler;
pub use tcsh::TcshHandler;
pub use zsh::ZshHandler;

verus! {

/// The comment that a written statement carries: who wrote it, and when.
pub open spec fn stamp_line(stamp: Seq<char>) -> Seq<char> {
    "# Updated by pathmaster on "@ + stamp
}

/// The comment that a written statement carries.
pub fn write_stamp_line(stamp: &Vec<char>) -> (line: Vec<char>)
    ensures
        line@ == stamp_line(stamp@),
{
    let mut line = chars_of("# Updated by pathmaster on ");
    push_all(&mut line, stamp);
    line
}

/// The path of the file `name` in the directory `dir`.
pub open spec fn path_in(dir: Seq<char>, name: Seq<char>) -> Seq<char> {
    if dir.len() == 0 {
        name
    } else if dir.last() == '/' {
        dir + name
    } else {
        dir + seq!['/'] + name
    }
}

/// The path of the file `name` in the directory `dir`.
pub fn join_path(dir: &str, name: &str) -> (path: String)
    ensures
        path@ == path_in(dir@, name@),
{
    let mut out = chars_of(dir);
    let n = out.len();
    if n > 0 && out[n - 1] != '/' {
        out.push('/');
    }
    let rest = chars_of(name);
    push_all(&mut out, &rest);
    assert(out@ =~= path_in(dir@, name@));
    crate::text::string_of(&out)
}

/// The name of the startup file of a family, relative to the home directory.
pub open spec fn config_name(shell: ShellType) -> Seq<char> {
    match shell {
        ShellType::Zsh => ".zshrc"@,
        ShellType::Bash => ".bashrc"@,
        ShellType::Fish => ".config/fish/config.fish"@,
        ShellType::Tcsh => ".tcshrc"@,
        ShellType::Ksh => ".kshrc"@,
        ShellType::Generic => ".profile"@,
    }
}

/// The path of the startup file of a family for the home directory `home`.
pub fn default_config_location(shell: ShellType, home: &str) -> (path: String)
    ensures
        path@ == path_in(home@, config_name(shell)),
{
    match shell {
        ShellType::Zsh => join_path(home, ".zshrc"),
        ShellType::Bash => join_path(home, ".bashrc"),
        ShellType::Fish => join_path(home, ".config/fish/config.fish"),
        ShellType::Tcsh => join_path(home, ".tcshrc"),
        ShellType::Ksh => join_path(home, ".kshrc"),
        ShellType::Generic => join_path(home, ".profile"),
    }
}

/// The directory in which a startup file is looked for: the home directory
/// `home`, or `/` where none is known.
pub open spec fn home_or_root(home: Option<Seq<char>>) -> Seq<char> {
    match home {
        Some(dir) => dir,
        None => seq!['/'],
    }
}

/// The path of the startup file of a family for the home directory `home`,
/// or in `/` where no home directory is known.
pub fn config_location_for(shell: ShellType, home: Option<&str>) -> (path: String)
    ensures
        path@ == path_in(
            home_or_root(
                match home {
                    Some(dir) => Some(dir@),
                    None => None,
                },
            ),
            config_name(shell),
        ),
{
    match home {
        Some(dir) => default_config_location(shell, dir),
        None => {
            proof {
                reveal_strlit("/");
            }
            assert("/"@ =~= seq!['/']);
            default_config_location(shell, "/")
        },
    }
}

/// The path of the startup file of a family for the current user: in the
/// home directory that the system tells, or in `/` where it tells none.
pub fn user_config_location(shell: ShellType) -> (path: String)
    ensures
        exists|home: Option<Seq<char>>|
            path@ == path_in(home_or_root(home), config_name(shell)),
{
    let home = home_dir();
    let path = match &home {
        Some(dir) => config_location_for(shell, Some(dir.as_str())),
        None => config_location_for(shell, None),
    };
    let ghost told: Option<Seq<char>> = match home {
        Some(dir) => Some(dir@),
        None => None,
    };
    assert(path@ == path_in(home_or_root(told), config_name(shell)));
    path
}

/// Whether `out` can hold the directories `raw` in order, each with its
/// variables and its tilde expanded.
pub open spec fn expanded_from(raw: Seq<Seq<char>>, out: Seq<Seq<char>>) -> bool {
    out.len() == raw.len() && forall|i: int|
        0 <= i < raw.len() ==> expands_to(#[trigger] raw[i], out[i])
}

/// The directories `raw`, each expanded.
pub fn expand_all(raw: &[String]) -> (out: Vec<String>)
    ensures
        expanded_from(texts(raw@), texts(out@)),
{
    let mut out: Vec<String> = Vec::new();
    let mut i: usize = 0;
    while i < raw.len()
        invariant
            i <= raw.len(),
            out.len() == i,
            forall|k: int| 0 <= k < i ==> expands_to(#[trigger] raw@[k]@, out@[k]@),
        decreases raw.len() - i,
    {
        let one = expand_path(raw[i].as_str());
        out.push(one);
        i += 1;
    }
    assert forall|k: int| 0 <= k < texts(raw@).len() implies expands_to(
        #[trigger] texts(raw@)[k],
        texts(out@)[k],
    ) by {
        assert(expands_to(raw@[k]@, out@[k]@));
    }
    out
}

/// What a handler can do for its family of shells.
pub trait ShellHandler {
    /// The family this handler is for.
    spec fn shell(&self) -> ShellType;

    /// The path of the startup file this handler works on.
    spec fn location(&self) -> Seq<char>;

    /// The family this handler is for.
    fn get_shell_type(&self) -> (shell: ShellType)
        ensures
            shell == self.shell(),
    ;

    /// The path of the startup file this handler works on.
    fn get_config_path(&self) -> (path: String)
        ensures
            path@ == self.location(),
    ;

    /// The directories that the statements about `PATH` in `content` name,
    /// in order, each expanded.
    fn parse_path_entries(&self, content: &str) -> (out: Vec<String>)
        ensures
            expanded_from(extracted(self.shell(), content@), texts(out@)),
    {
        let raw = extract_entries(self.get_shell_type(), content);
        expand_all(raw.as_slice())
    }

    /// The text that sets `PATH` to `entries`, each of them expanded, marked
    /// with the time of the call.
    fn format_path_export(&self, entries: &[String]) -> (out: String)
        ensures
            exists|stamp: Seq<char>, written: Seq<Seq<char>>|
                is_comment_time(stamp) && expanded_from(texts(entries@), written) && out@
                    == rendered(self.shell(), written, stamp),
    {
        let stamp = local_time("%Y-%m-%d %H:%M:%S");
        let written = expand_all(entries);
        render_declaration(self.get_shell_type(), written.as_slice(), stamp.as_str())
    }

    /// The statements about `PATH` in `content`, in the order in which they
    /// are found: in zsh's syntax the arrays and blocks first, then the
    /// exports; in every other syntax by line.
    fn detect_path_modifications(&self, content: &str) -> (out: Vec<PathModification>)
        ensures
            declared(out@) == located(self.shell(), content@),
    {
        locate_declarations(self.get_shell_type(), content)
    }

    /// `content` rewritten to set `PATH` to `entries`, each of them
    /// expanded: the new statement, marked with the time of the call, stands
    /// in the place of the first old one, the other old ones are gone, and
    /// all other lines are kept.
    fn update_path_in_config(&self, content: &str, entries: &[String]) -> (out: String)
        ensures
            exists|stamp: Seq<char>, written: Seq<Seq<char>>|
                is_comment_time(stamp) && expanded_from(texts(entries@), written) && out@
                    == rewritten(self.shell(), content@, written, stamp),
    {
        let stamp = local_time("%Y-%m-%d %H:%M:%S");
        let written = expand_all(entries);
        rewrite(self.get_shell_type(), content, written.as_slice(), stamp.as_str())
    }
}

} // verus!
