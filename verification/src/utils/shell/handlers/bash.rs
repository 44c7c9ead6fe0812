//! Bash, and the syntax it shares with ksh and the plain POSIX shell:
//! `export PATH=...` and `PATH=$PATH:...`.

use vstd::prelude::*;
use crate::text::{
    blank, chars_of, class_has, contains, contains_text, find_class, find_pair, has_pair,
    in_class, is_blank, join, join_with, pair_end, push_all, rows, seek_class, slice_of, split,
    split_on, trim, trim_end_of, trimmed, trimmed_end, CharClass,
};
use crate::utils::shell::handlers::{
    config_name, default_config_location, home_or_root, path_in, stamp_line, user_config_location,
    write_stamp_line, ShellHandler,
};
use crate::utils::shell::types::{ModificationType, ShellType};

verus! {

/// Whether `line` assigns to `PATH`: the word `export`, white space and
/// `PATH=` stand in it.
pub open spec fn is_assignment(line: Seq<char>) -> bool {
    has_pair(line, "export"@, "PATH="@)
}

/// Whether `line` adds to the current value of `PATH`.
pub open spec fn is_addition(line: Seq<char>) -> bool {
    contains_text(line, "PATH=$PATH:"@)
}

/// Whether `line` is a statement about `PATH` in this syntax.
pub open spec fn declares(line: Seq<char>) -> bool {
    is_assignment(line) || is_addition(line)
}

/// The position in `line` behind the `PATH=` of its first assignment.
pub open spec fn value_start(line: Seq<char>) -> int {
    pair_end(line, "export"@, "PATH="@)
}

/// What stands in `line` from `from` on, behind one opening quote if there
/// is one and up to the next quote, as it is written there. Where no quote
/// follows, the value reaches to the end of the line, without the white
/// space that ends the line.
pub open spec fn quoted_value(line: Seq<char>, from: int) -> Seq<char> {
    let b = if 0 <= from < line.len() && in_class(CharClass::Quote, line[from]) {
        from + 1
    } else {
        from
    };
    let e = find_class(line, CharClass::Quote, b);
    if 0 <= b <= e < line.len() {
        line.subrange(b, e)
    } else if 0 <= b <= e == line.len() {
        trimmed_end(line.subrange(b, e))
    } else {
        Seq::empty()
    }
}

/// The directories of a value in which a colon stands between each two;
/// none for a value that is empty or holds white space only.
pub open spec fn colon_entries(value: Seq<char>) -> Seq<Seq<char>> {
    if is_blank(value) {
        Seq::empty()
    } else {
        split_on(value, ':')
    }
}

/// What an addition adds: what stands behind the last colon of the line, if
/// anything does.
pub open spec fn added_entry(line: Seq<char>) -> Seq<Seq<char>> {
    let last = split_on(trimmed(line), ':').last();
    if last.len() > 0 {
        seq![last]
    } else {
        Seq::empty()
    }
}

/// The directories that `line` names: those of its value if it assigns to
/// `PATH`, the one it adds if it is an addition, none otherwise.
pub open spec fn line_entries(line: Seq<char>) -> Seq<Seq<char>> {
    if is_assignment(line) {
        colon_entries(quoted_value(line, value_start(line)))
    } else if is_addition(line) {
        added_entry(line)
    } else {
        Seq::empty()
    }
}

/// The kind of a statement of this syntax.
pub open spec fn kind_of(line: Seq<char>) -> ModificationType {
    if is_addition(line) {
        ModificationType::Addition
    } else {
        ModificationType::Assignment
    }
}

/// The position in `line` behind the `PATH=` of its first assignment, if it
/// has one.
pub fn find_value(line: &Vec<char>) -> (r: Option<usize>)
    ensures
        r is Some == is_assignment(line@),
        r matches Some(v) ==> v == value_start(line@) && v <= line.len(),
{
    let export = chars_of("export");
    let path_eq = chars_of("PATH=");
    find_pair(line, &export, &path_eq)
}

/// Whether `line` is a statement about `PATH` in this syntax.
pub fn is_declaration(line: &Vec<char>) -> (b: bool)
    ensures
        b == declares(line@),
{
    let addition = chars_of("PATH=$PATH:");
    find_value(line).is_some() || contains(line, &addition)
}

/// The kind of the statement that `line` is.
pub fn kind_of_line(line: &Vec<char>) -> (k: ModificationType)
    ensures
        k == kind_of(line@),
{
    let addition = chars_of("PATH=$PATH:");
    if contains(line, &addition) {
        ModificationType::Addition
    } else {
        ModificationType::Assignment
    }
}

/// The value that stands in `line` from `from` on.
pub fn value_at(line: &Vec<char>, from: usize) -> (v: Vec<char>)
    requires
        from <= line.len(),
    ensures
        v@ == quoted_value(line@, from as int),
{
    let b: usize = if from < line.len() && class_has(CharClass::Quote, line[from]) {
        from + 1
    } else {
        from
    };
    let e = seek_class(line, CharClass::Quote, b);
    let inner = slice_of(line, b, e);
    if e < line.len() {
        inner
    } else {
        let t = trim_end_of(&inner, CharClass::Space);
        slice_of(&inner, 0, t)
    }
}

/// The directories of a value in which a colon stands between each two.
pub fn split_colons(value: &Vec<char>) -> (out: Vec<Vec<char>>)
    ensures
        rows(out@) == colon_entries(value@),
{
    if blank(value) {
        let out: Vec<Vec<char>> = Vec::new();
        assert(rows(out@) =~= Seq::<Seq<char>>::empty());
        out
    } else {
        split(value, ':')
    }
}

/// The directories that `line` names.
pub fn entries_of_line(line: &Vec<char>) -> (out: Vec<Vec<char>>)
    ensures
        rows(out@) == line_entries(line@),
{
    let addition = chars_of("PATH=$PATH:");
    let mut out: Vec<Vec<char>> = Vec::new();
    assert(rows(out@) =~= Seq::<Seq<char>>::empty());
    match find_value(line) {
        Some(v) => {
            let value = value_at(line, v);
            split_colons(&value)
        },
        None => {
            if contains(line, &addition) {
                let t = trim(line);
                let mut pieces = split(&t, ':');
                let ghost all = rows(pieces@);
                let last = pieces.pop();
                match last {
                    Some(piece) => {
                        assert(piece@ == all.last());
                        if piece.len() > 0 {
                            out.push(piece);
                            assert(rows(out@) =~= seq![piece@]);
                        }
                    },
                    None => {},
                }
            }
            out
        },
    }
}

/// The line that assigns the directories `entries` to `PATH`.
pub open spec fn export_line(entries: Seq<Seq<char>>) -> Seq<char> {
    "export PATH=\""@ + join(entries, ':') + "\""@
}

/// The lines that set `PATH` to `entries`: a comment that names the writer
/// and the time `stamp`, and the assignment.
pub open spec fn block(entries: Seq<Seq<char>>, stamp: Seq<char>) -> Seq<Seq<char>> {
    seq![stamp_line(stamp), export_line(entries)]
}

/// The lines that set `PATH` to `entries`.
pub fn render(entries: &Vec<Vec<char>>, stamp: &Vec<char>) -> (out: Vec<Vec<char>>)
    ensures
        rows(out@) == block(rows(entries@), stamp@),
{
    let mut line = chars_of("export PATH=\"");
    let joined = join_with(entries, ':');
    push_all(&mut line, &joined);
    let quote = chars_of("\"");
    push_all(&mut line, &quote);
    let mut out: Vec<Vec<char>> = Vec::new();
    out.push(write_stamp_line(stamp));
    out.push(line);
    assert(rows(out@) =~= block(rows(entries@), stamp@));
    out
}

/// The handler for bash.
pub struct BashHandler {
    config_path: String,
}

impl BashHandler {
    /// A handler for the startup file of the current user.
    pub fn new() -> (handler: Self)
        ensures
            handler.shell() == ShellType::Bash,
            exists|home: Option<Seq<char>>|
                handler.location() == path_in(
                    home_or_root(home),
                    config_name(ShellType::Bash),
                ),
    {
        BashHandler { config_path: user_config_location(ShellType::Bash) }
    }

    /// A handler for the startup file in the home directory `home`.
    pub fn in_home(home: &str) -> (handler: Self)
        ensures
            handler.shell() == ShellType::Bash,
            handler.location() == path_in(home@, config_name(ShellType::Bash)),
    {
        BashHandler { config_path: default_config_location(ShellType::Bash, home) }
    }
}

impl ShellHandler for BashHandler {
    open spec fn shell(&self) -> ShellType {
        ShellType::Bash
    }

    closed spec fn location(&self) -> Seq<char> {
        self.config_path@
    }

    fn get_shell_type(&self) -> ShellType {
        ShellType::Bash
    }

    fn get_config_path(&self) -> String {
        self.config_path.clone()
    }
}

} // verus!
