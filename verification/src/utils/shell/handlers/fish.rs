//! Fish: `fish_add_path <dir>` and `set -gx PATH ...`.

use vstd::prelude::*;
use crate::text::{
    chars_of, contains, contains_text, find_pair, has_pair, pair_end, push_all, rows, slice_of,
    trim, trimmed,
};
use crate::utils::shell::handlers::{
    config_name, default_config_location, home_or_root, path_in, stamp_line, user_config_location,
    write_stamp_line, ShellHandler,
};
use crate::utils::shell::types::ShellType;

verus! {

/// Whether `line` is a statement about `PATH` in this syntax.
pub open spec fn declares(line: Seq<char>) -> bool {
    contains_text(line, "fish_add_path"@) || contains_text(line, "set -gx PATH"@)
}

/// Whether a word follows a `fish_add_path` in `t`: the command, white space,
/// and something behind it.
pub open spec fn adds_path(t: Seq<char>) -> bool {
    has_pair(t, "fish_add_path"@, ""@) && pair_end(t, "fish_add_path"@, ""@) < t.len()
}

/// The directory that `line` adds: what follows its first `fish_add_path`
/// and white space, up to the end of the line without the white space there.
pub open spec fn line_entries(line: Seq<char>) -> Seq<Seq<char>> {
    let t = trimmed(line);
    if adds_path(t) {
        seq![t.subrange(pair_end(t, "fish_add_path"@, ""@), t.len() as int)]
    } else {
        Seq::empty()
    }
}

/// Whether `line` is a statement about `PATH` in this syntax.
pub fn is_declaration(line: &Vec<char>) -> (b: bool)
    ensures
        b == declares(line@),
{
    let add = chars_of("fish_add_path");
    let set = chars_of("set -gx PATH");
    contains(line, &add) || contains(line, &set)
}

/// The directory that `line` adds, if it adds one.
pub fn entries_of_line(line: &Vec<char>) -> (out: Vec<Vec<char>>)
    ensures
        rows(out@) == line_entries(line@),
{
    let add = chars_of("fish_add_path");
    let nothing = chars_of("");
    let t = trim(line);
    let mut out: Vec<Vec<char>> = Vec::new();
    assert(rows(out@) =~= Seq::<Seq<char>>::empty());
    match find_pair(&t, &add, &nothing) {
        Some(v) => {
            if v < t.len() {
                let entry = slice_of(&t, v, t.len());
                out.push(entry);
                assert(rows(out@) =~= seq![entry@]);
            }
        },
        None => {},
    }
    out
}

/// The line that adds the directory `entry` to `PATH`.
pub open spec fn add_line(entry: Seq<char>) -> Seq<char> {
    "fish_add_path "@ + entry
}

/// The lines that add each of `entries`, in order.
pub open spec fn add_lines(entries: Seq<Seq<char>>) -> Seq<Seq<char>> {
    Seq::new(entries.len(), |i: int| add_line(entries[i]))
}

/// The lines that set `PATH` to `entries`: a comment that names the writer
/// and the time `stamp`, a line that clears `PATH`, and one line for each
/// directory.
pub open spec fn block(entries: Seq<Seq<char>>, stamp: Seq<char>) -> Seq<Seq<char>> {
    seq![stamp_line(stamp), "set -e PATH"@] + add_lines(entries)
}

/// The lines that set `PATH` to `entries`.
pub fn render(entries: &Vec<Vec<char>>, stamp: &Vec<char>) -> (out: Vec<Vec<char>>)
    ensures
        rows(out@) == block(rows(entries@), stamp@),
{
    let mut out: Vec<Vec<char>> = Vec::new();
    out.push(write_stamp_line(stamp));
    out.push(chars_of("set -e PATH"));
    let mut i: usize = 0;
    while i < entries.len()
        invariant
            i <= entries.len(),
            out.len() == i + 2,
            out@[0]@ == stamp_line(stamp@),
            out@[1]@ == "set -e PATH"@,
            forall|j: int| 2 <= j < i + 2 ==> (#[trigger] out@[j])@ == add_line(entries@[j - 2]@),
        decreases entries.len() - i,
    {
        let mut line = chars_of("fish_add_path ");
        push_all(&mut line, &entries[i]);
        out.push(line);
        i += 1;
    }
    assert(rows(out@) =~= block(rows(entries@), stamp@));
    out
}

/// The handler for fish.
pub struct FishHandler {
    config_path: String,
}

impl FishHandler {
    /// A handler for the startup file of the current user.
    pub fn new() -> (handler: Self)
        ensures
            handler.shell() == ShellType::Fish,
            exists|home: Option<Seq<char>>|
                handler.location() == path_in(
                    home_or_root(home),
                    config_name(ShellType::Fish),
                ),
    {
        FishHandler { config_path: user_config_location(ShellType::Fish) }
    }

    /// A handler for the startup file in the home directory `home`.
    pub fn in_home(home: &str) -> (handler: Self)
        ensures
            handler.shell() == ShellType::Fish,
            handler.location() == path_in(home@, config_name(ShellType::Fish)),
    {
        FishHandler { config_path: default_config_location(ShellType::Fish, home) }
    }
}

impl ShellHandler for FishHandler {
    open spec fn shell(&self) -> ShellType {
        ShellType::Fish
    }

    closed spec fn location(&self) -> Seq<char> {
        self.config_path@
    }

    fn get_shell_type(&self) -> ShellType {
        ShellType::Fish
    }

    fn get_config_path(&self) -> String {
        self.config_path.clone()
    }
}

} // verus!
