//! Tcsh and csh: `setenv PATH <dirs>` and `set path = (<dirs>)`. Where the
//! array is set and the variable is set right behind it to the same
//! directories, as this library writes them, the two lines are one statement.

use vstd::prelude::*;
use crate::text::{
    chars_of, find_char, find_class, find_pair, has_at, has_pair, index_of, join, join_with,
    matches_at, pair_end, push_all, rows, same_rows, seek_class, skip_class, skip_over,
    slice_of, split_words, words, CharClass,
};
use crate::utils::shell::handlers::bash::{colon_entries, split_colons};
use crate::utils::shell::handlers::{
    config_name, default_config_location, home_or_root, path_in, stamp_line, user_config_location,
    write_stamp_line, ShellHandler,
};
use crate::utils::shell::types::ShellType;

verus! {

/// Whether `line` sets the variable: the word `setenv`, white space and
/// `PATH` stand in it.
pub open spec fn sets_variable(line: Seq<char>) -> bool {
    has_pair(line, "setenv"@, "PATH"@)
}

/// The position of the `=` in `line`, where the word `set`, white space and
/// `path` stand in it: behind the white space that follows `path`.
pub open spec fn equals_at(line: Seq<char>) -> int {
    skip_class(line, CharClass::Space, pair_end(line, "set"@, "path"@))
}

/// Whether `line` sets the array: the word `set`, white space, `path` and,
/// behind white space or none, `=` stand in it.
pub open spec fn sets_array(line: Seq<char>) -> bool {
    has_pair(line, "set"@, "path"@) && has_at(line, "="@, equals_at(line))
}

/// Whether `line` is a statement about `PATH` in this syntax.
pub open spec fn declares(line: Seq<char>) -> bool {
    sets_variable(line) || sets_array(line)
}

/// The directories of a line that sets the variable: its first word behind
/// `PATH` and white space, up to a `#` if it holds one, cut at its colons.
pub open spec fn variable_entries(line: Seq<char>) -> Seq<Seq<char>> {
    let e = pair_end(line, "setenv"@, "PATH"@);
    let v = skip_class(line, CharClass::Space, e);
    let w = find_class(line, CharClass::Stop, v);
    if 0 <= e < v <= w <= line.len() {
        colon_entries(line.subrange(v, w))
    } else {
        Seq::empty()
    }
}

/// The directories of a line that sets the array: the words between the
/// bracket that follows `=` and the next closing bracket. None where either
/// bracket is missing.
pub open spec fn array_entries(line: Seq<char>) -> Seq<Seq<char>> {
    let p = skip_class(line, CharClass::Space, equals_at(line) + 1);
    let c = index_of(line, ')', p + 1);
    if has_at(line, "("@, p) && p < c < line.len() {
        words(line.subrange(p + 1, c))
    } else {
        Seq::empty()
    }
}

/// The directories that `line` names: those of the array if it sets the
/// array, those of the variable if it sets the variable, none otherwise. A
/// statement of two lines names what its first line names.
pub open spec fn line_entries(line: Seq<char>) -> Seq<Seq<char>> {
    if sets_array(line) {
        array_entries(line)
    } else if sets_variable(line) {
        variable_entries(line)
    } else {
        Seq::empty()
    }
}

/// The position of the `=` in `line`, if it sets the array.
pub fn find_equals(line: &Vec<char>) -> (r: Option<usize>)
    ensures
        r is Some == sets_array(line@),
        r matches Some(q) ==> q == equals_at(line@) && q < line.len(),
{
    let set = chars_of("set");
    let path = chars_of("path");
    let equals = chars_of("=");
    match find_pair(line, &set, &path) {
        Some(e) => {
            let q = skip_over(line, CharClass::Space, e);
            if matches_at(line, &equals, q) {
                proof {
                    reveal_strlit("=");
                }
                Some(q)
            } else {
                None
            }
        },
        None => None,
    }
}

/// Whether `line` is a statement about `PATH` in this syntax.
pub fn is_declaration(line: &Vec<char>) -> (b: bool)
    ensures
        b == declares(line@),
{
    let setenv = chars_of("setenv");
    let path = chars_of("PATH");
    find_pair(line, &setenv, &path).is_some() || find_equals(line).is_some()
}

/// The directories of the array that `line` sets, if it sets the array.
pub fn array_of(line: &Vec<char>) -> (r: Option<Vec<Vec<char>>>)
    ensures
        r is Some == sets_array(line@),
        r matches Some(e) ==> rows(e@) == array_entries(line@),
{
    let open = chars_of("(");
    let none: Vec<Vec<char>> = Vec::new();
    assert(rows(none@) =~= Seq::<Seq<char>>::empty());
    match find_equals(line) {
        Some(q) => {
            let p = skip_over(line, CharClass::Space, q + 1);
            if matches_at(line, &open, p) {
                proof {
                    reveal_strlit("(");
                }
                let c = find_char(line, ')', p + 1);
                if c < line.len() {
                    let inner = slice_of(line, p + 1, c);
                    Some(split_words(&inner))
                } else {
                    Some(none)
                }
            } else {
                Some(none)
            }
        },
        None => None,
    }
}

/// The directories of the variable that `line` sets, if it sets the
/// variable.
pub fn variable_of(line: &Vec<char>) -> (r: Option<Vec<Vec<char>>>)
    ensures
        r is Some == sets_variable(line@),
        r matches Some(e) ==> rows(e@) == variable_entries(line@),
{
    let setenv = chars_of("setenv");
    let path = chars_of("PATH");
    match find_pair(line, &setenv, &path) {
        Some(e) => {
            let v = skip_over(line, CharClass::Space, e);
            if e < v {
                let w = seek_class(line, CharClass::Stop, v);
                let word = slice_of(line, v, w);
                Some(split_colons(&word))
            } else {
                let none: Vec<Vec<char>> = Vec::new();
                assert(rows(none@) =~= Seq::<Seq<char>>::empty());
                Some(none)
            }
        },
        None => None,
    }
}

/// The directories that `line` names.
pub fn entries_of_line(line: &Vec<char>) -> (out: Vec<Vec<char>>)
    ensures
        rows(out@) == line_entries(line@),
{
    match array_of(line) {
        Some(e) => e,
        None => match variable_of(line) {
            Some(e) => e,
            None => {
                let none: Vec<Vec<char>> = Vec::new();
                assert(rows(none@) =~= Seq::<Seq<char>>::empty());
                none
            },
        },
    }
}

/// Whether the lines at `pos` and behind it in `ls` are one statement of
/// two lines: the first sets the array, and the second sets the variable
/// and nothing else, to the same directories in the same order.
pub open spec fn pairs(ls: Seq<Seq<char>>, pos: int) -> bool {
    &&& 0 <= pos
    &&& pos + 1 < ls.len()
    &&& sets_array(ls[pos])
    &&& !sets_array(ls[pos + 1])
    &&& sets_variable(ls[pos + 1])
    &&& variable_entries(ls[pos + 1]) == array_entries(ls[pos])
}

/// The number of lines of the statement about `PATH` that begins at line
/// `pos` of `ls`, or 0 where none begins there: two where the array and the
/// variable are set together, one for any other statement.
pub open spec fn span_len(ls: Seq<Seq<char>>, pos: int) -> int {
    if !declares(ls[pos]) {
        0
    } else if pairs(ls, pos) {
        2
    } else {
        1
    }
}

/// The number of lines of the statement that begins at line `pos`.
pub fn span_at(lines: &Vec<Vec<char>>, pos: usize) -> (n: usize)
    requires
        pos < lines.len(),
    ensures
        n == span_len(rows(lines@), pos as int),
        n <= lines.len() - pos,
{
    match array_of(&lines[pos]) {
        Some(array) => {
            if pos + 1 < lines.len() && array_of(&lines[pos + 1]).is_none() {
                match variable_of(&lines[pos + 1]) {
                    Some(variable) => {
                        if same_rows(&variable, &array) {
                            return 2;
                        }
                    },
                    None => {},
                }
            }
            1
        },
        None => {
            if variable_of(&lines[pos]).is_some() {
                1
            } else {
                0
            }
        },
    }
}

/// The line that sets the array to `entries`.
pub open spec fn array_line(entries: Seq<Seq<char>>) -> Seq<char> {
    "set path = ("@ + join(entries, ' ') + ")"@
}

/// The line that sets the variable to `entries`.
pub open spec fn variable_line(entries: Seq<Seq<char>>) -> Seq<char> {
    "setenv PATH "@ + join(entries, ':')
}

/// The lines that set `PATH` to `entries`: a comment that names the writer
/// and the time `stamp`, the array and the variable.
pub open spec fn block(entries: Seq<Seq<char>>, stamp: Seq<char>) -> Seq<Seq<char>> {
    seq![stamp_line(stamp), array_line(entries), variable_line(entries)]
}

/// The lines that set `PATH` to `entries`.
pub fn render(entries: &Vec<Vec<char>>, stamp: &Vec<char>) -> (out: Vec<Vec<char>>)
    ensures
        rows(out@) == block(rows(entries@), stamp@),
{
    let mut array = chars_of("set path = (");
    let spaced = join_with(entries, ' ');
    push_all(&mut array, &spaced);
    let close = chars_of(")");
    push_all(&mut array, &close);
    let mut variable = chars_of("setenv PATH ");
    let coloned = join_with(entries, ':');
    push_all(&mut variable, &coloned);
    let mut out: Vec<Vec<char>> = Vec::new();
    out.push(write_stamp_line(stamp));
    out.push(array);
    out.push(variable);
    assert(rows(out@) =~= block(rows(entries@), stamp@));
    out
}

/// The handler for tcsh.
pub struct TcshHandler {
    config_path: String,
}

impl TcshHandler {
    /// A handler for the startup file of the current user.
    pub fn new() -> (handler: Self)
        ensures
            handler.shell() == ShellType::Tcsh,
            exists|home: Option<Seq<char>>|
                handler.location() == path_in(
                    home_or_root(home),
                    config_name(ShellType::Tcsh),
                ),
    {
        TcshHandler { config_path: user_config_location(ShellType::Tcsh) }
    }

    /// A handler for the startup file in the home directory `home`.
    pub fn in_home(home: &str) -> (handler: Self)
        ensures
            handler.shell() == ShellType::Tcsh,
            handler.location() == path_in(home@, config_name(ShellType::Tcsh)),
    {
        TcshHandler { config_path: default_config_location(ShellType::Tcsh, home) }
    }
}

impl ShellHandler for TcshHandler {
    open spec fn shell(&self) -> ShellType {
        ShellType::Tcsh
    }

    closed spec fn location(&self) -> Seq<char> {
        self.config_path@
    }

    fn get_shell_type(&self) -> ShellType {
        ShellType::Tcsh
    }

    fn get_config_path(&self) -> String {
        self.config_path.clone()
    }
}

} // verus!
