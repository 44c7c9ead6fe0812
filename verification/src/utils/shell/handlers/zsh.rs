//! Zsh: the array `path=(...)` on one line, the block `path+=(` ... `)` over
//! several, and `export PATH=...`.

use vstd::prelude::*;
use crate::text::{
    chars_of, contains, contains_text, find, find_char, first_at, index_of, matches_at, push_all,
    push_rows, rows, slice_of, split_words, starts_with, trim, trim_by, trimmed, trimmed_by, words,
    CharClass,
};
use crate::utils::shell::handlers::bash::{colon_entries, quoted_value, split_colons, value_at};
use crate::utils::shell::handlers::{
    config_name, default_config_location, home_or_root, path_in, stamp_line, user_config_location,
    write_stamp_line, ShellHandler,
};
use crate::utils::shell::types::{ModificationType, ShellType};

verus! {

/// The length of the opening of an array at the start of `t`: that of
/// `path=(` or of `path+=(`, or 0 where `t` begins with neither.
pub open spec fn opener_len(t: Seq<char>) -> int {
    if starts_with(t, "path=("@) {
        "path=("@.len() as int
    } else if starts_with(t, "path+=("@) {
        "path+=("@.len() as int
    } else {
        0
    }
}

/// Whether `line` holds an array from its opening to its closing bracket.
pub open spec fn is_array(line: Seq<char>) -> bool {
    let t = trimmed(line);
    opener_len(t) > 0 && index_of(t, ')', opener_len(t)) < t.len()
}

/// The directories of an array on one line: the words between its brackets.
pub open spec fn array_entries(line: Seq<char>) -> Seq<Seq<char>> {
    let t = trimmed(line);
    words(t.subrange(opener_len(t), index_of(t, ')', opener_len(t))))
}

/// Whether `line` opens a block: it begins with `path+=(` and holds no
/// closing bracket behind it.
pub open spec fn opens_block(line: Seq<char>) -> bool {
    let t = trimmed(line);
    starts_with(t, "path+=("@) && index_of(t, ')', "path+=("@.len() as int) >= t.len()
}

/// Whether `line` closes a block: it holds a closing bracket and nothing
/// else but white space.
pub open spec fn closes_block(line: Seq<char>) -> bool {
    trimmed(line) == seq![')']
}

/// The first line at or after `from` that closes a block, or the number of
/// lines where none does.
pub open spec fn next_close(ls: Seq<Seq<char>>, from: int) -> int
    decreases ls.len() - from,
{
    if 0 <= from < ls.len() && !closes_block(ls[from]) {
        next_close(ls, from + 1)
    } else {
        from
    }
}

/// Whether `line` exports a value for `PATH`.
pub open spec fn exports(line: Seq<char>) -> bool {
    contains_text(line, "export PATH="@)
}

/// The directories of a line that exports a value for `PATH`.
pub open spec fn export_entries(line: Seq<char>) -> Seq<Seq<char>> {
    colon_entries(
        quoted_value(line, first_at(line, "export PATH="@, 0) + "export PATH="@.len()),
    )
}

/// The number of lines of the statement about `PATH` that begins at line
/// `pos` of `ls`, or 0 where none begins there. A block counts only where a
/// line closes it, and reaches to the first such line. A line that holds an
/// array counts as an array, whatever else it holds.
pub open spec fn span_len(ls: Seq<Seq<char>>, pos: int) -> int {
    if is_array(ls[pos]) {
        1
    } else if opens_block(ls[pos]) && next_close(ls, pos + 1) < ls.len() {
        next_close(ls, pos + 1) - pos + 1
    } else if exports(ls[pos]) {
        1
    } else {
        0
    }
}

/// The kind of the statement that begins at line `pos` of `ls`.
pub open spec fn span_kind(ls: Seq<Seq<char>>, pos: int) -> ModificationType {
    if is_array(ls[pos]) || opens_block(ls[pos]) {
        ModificationType::ArrayModification
    } else {
        ModificationType::Assignment
    }
}

/// The directory that a line inside a block names: the line without the
/// white space, quotes and blanks round it, if anything is left.
pub open spec fn item(line: Seq<char>) -> Seq<Seq<char>> {
    let x = trimmed_by(trimmed(line), CharClass::Wrap);
    if x.len() > 0 {
        seq![x]
    } else {
        Seq::empty()
    }
}

/// The directories that the lines of `ls` from `from` up to `to` name, each
/// line read as one inside a block.
pub open spec fn items(ls: Seq<Seq<char>>, from: int, to: int) -> Seq<Seq<char>>
    decreases to - from,
{
    if from < to {
        item(ls[from]) + items(ls, from + 1, to)
    } else {
        Seq::empty()
    }
}

/// The directories of the statement that begins at line `pos` of `ls`.
pub open spec fn span_entries(ls: Seq<Seq<char>>, pos: int) -> Seq<Seq<char>> {
    if is_array(ls[pos]) {
        array_entries(ls[pos])
    } else if opens_block(ls[pos]) && next_close(ls, pos + 1) < ls.len() {
        items(ls, pos + 1, next_close(ls, pos + 1))
    } else if exports(ls[pos]) {
        export_entries(ls[pos])
    } else {
        Seq::empty()
    }
}

/// `next_close` stays within the lines and passes no closing line.
pub proof fn lemma_next_close(ls: Seq<Seq<char>>, from: int)
    requires
        0 <= from <= ls.len(),
    ensures
        from <= next_close(ls, from) <= ls.len(),
        forall|k: int| from <= k < next_close(ls, from) ==> !closes_block(#[trigger] ls[k]),
        next_close(ls, from) < ls.len() ==> closes_block(ls[next_close(ls, from)]),
    decreases ls.len() - from,
{
    if from < ls.len() && !closes_block(ls[from]) {
        lemma_next_close(ls, from + 1);
    }
}

/// The length of the opening of an array at the start of `t`.
pub fn opener_of(t: &Vec<char>) -> (n: usize)
    ensures
        n == opener_len(t@),
        n <= t.len(),
{
    let assign = chars_of("path=(");
    let append = chars_of("path+=(");
    if matches_at(t, &assign, 0) {
        assign.len()
    } else if matches_at(t, &append, 0) {
        append.len()
    } else {
        0
    }
}

/// The position of the closing bracket of the array that `t` holds, if it
/// holds one from its opening to its closing bracket.
fn array_close(t: &Vec<char>) -> (r: Option<(usize, usize)>)
    ensures
        r is Some == (opener_len(t@) > 0 && index_of(t@, ')', opener_len(t@)) < t.len()),
        r matches Some((n, c)) ==> n == opener_len(t@) && c == index_of(t@, ')', n as int) && n
            <= c < t.len(),
{
    let n = opener_of(t);
    if n > 0 {
        let c = find_char(t, ')', n);
        if c < t.len() {
            return Some((n, c));
        }
    }
    None
}

/// Whether `line` opens a block.
pub fn is_block_open(line: &Vec<char>) -> (b: bool)
    ensures
        b == opens_block(line@),
{
    let append = chars_of("path+=(");
    let t = trim(line);
    if matches_at(&t, &append, 0) {
        find_char(&t, ')', append.len()) >= t.len()
    } else {
        false
    }
}

/// Whether `line` closes a block.
pub fn is_block_close(line: &Vec<char>) -> (b: bool)
    ensures
        b == closes_block(line@),
{
    let t = trim(line);
    if t.len() == 1 && t[0] == ')' {
        assert(t@ =~= seq![')']);
        true
    } else {
        false
    }
}

/// The first line at or after `from` that closes a block.
pub fn find_close(lines: &Vec<Vec<char>>, from: usize) -> (r: usize)
    requires
        from <= lines.len(),
    ensures
        r == next_close(rows(lines@), from as int),
        from <= r <= lines.len(),
{
    let mut i: usize = from;
    while i < lines.len() && !is_block_close(&lines[i])
        invariant
            from <= i <= lines.len(),
            next_close(rows(lines@), from as int) == next_close(rows(lines@), i as int),
        decreases lines.len() - i,
    {
        i += 1;
    }
    i
}

/// The number of lines of the statement that begins at line `pos`.
pub fn span_at(lines: &Vec<Vec<char>>, pos: usize) -> (n: usize)
    requires
        pos < lines.len(),
    ensures
        n == span_len(rows(lines@), pos as int),
        n <= lines.len() - pos,
{
    let export = chars_of("export PATH=");
    let t = trim(&lines[pos]);
    if array_close(&t).is_some() {
        return 1;
    }
    if is_block_open(&lines[pos]) {
        let c = find_close(lines, pos + 1);
        if c < lines.len() {
            return c - pos + 1;
        }
    }
    if contains(&lines[pos], &export) {
        1
    } else {
        0
    }
}

/// The kind of the statement that begins at line `pos`.
pub fn kind_at(lines: &Vec<Vec<char>>, pos: usize) -> (k: ModificationType)
    requires
        pos < lines.len(),
    ensures
        k == span_kind(rows(lines@), pos as int),
{
    let t = trim(&lines[pos]);
    if array_close(&t).is_some() || is_block_open(&lines[pos]) {
        ModificationType::ArrayModification
    } else {
        ModificationType::Assignment
    }
}

/// The directory that a line inside a block names.
pub fn item_of(line: &Vec<char>) -> (out: Vec<Vec<char>>)
    ensures
        rows(out@) == item(line@),
{
    let t = trim(line);
    let x = trim_by(&t, CharClass::Wrap);
    let mut out: Vec<Vec<char>> = Vec::new();
    assert(rows(out@) =~= Seq::<Seq<char>>::empty());
    if x.len() > 0 {
        out.push(x);
        assert(rows(out@) =~= seq![x@]);
    }
    out
}

/// The directories of the statement that begins at line `pos`.
pub fn entries_at(lines: &Vec<Vec<char>>, pos: usize) -> (out: Vec<Vec<char>>)
    requires
        pos < lines.len(),
    ensures
        rows(out@) == span_entries(rows(lines@), pos as int),
{
    let export = chars_of("export PATH=");
    let t = trim(&lines[pos]);
    match array_close(&t) {
        Some((n, c)) => {
            let inner = slice_of(&t, n, c);
            return split_words(&inner);
        },
        None => {},
    }
    if is_block_open(&lines[pos]) {
        let c = find_close(lines, pos + 1);
        if c < lines.len() {
            let mut out: Vec<Vec<char>> = Vec::new();
            let mut i: usize = c;
            assert(rows(out@) =~= items(rows(lines@), c as int, c as int));
            while i > pos + 1
                invariant
                    pos + 1 <= i <= c < lines.len(),
                    rows(out@) == items(rows(lines@), i as int, c as int),
                decreases i,
            {
                i -= 1;
                let mut one = item_of(&lines[i]);
                let ghost rest = rows(out@);
                push_rows(&mut one, out);
                out = one;
                assert(rows(out@) =~= item(lines@[i as int]@) + rest);
            }
            return out;
        }
    }
    match find(&lines[pos], &export, 0) {
        Some(i) => {
            proof {
                crate::text::lemma_contains_first_at(lines@[pos as int]@, export@);
                crate::text::lemma_first_at(lines@[pos as int]@, export@, 0);
                assert(crate::text::has_at(lines@[pos as int]@, export@, i as int));
            }
            let line = &lines[pos];
            assert(i + export.len() <= line.len());
            let value = value_at(line, i + export.len());
            split_colons(&value)
        },
        None => {
            proof {
                crate::text::lemma_contains_first_at(lines@[pos as int]@, export@);
            }
            let out: Vec<Vec<char>> = Vec::new();
            assert(rows(out@) =~= Seq::<Seq<char>>::empty());
            out
        },
    }
}

/// The line that names the directory `entry` inside a block.
pub open spec fn item_line(entry: Seq<char>) -> Seq<char> {
    "  \""@ + entry + "\""@
}

/// The lines that set `PATH` to `entries`: a block with one line for each
/// directory, the export of the variable, and a comment that names the
/// writer and the time `stamp`.
pub open spec fn block(entries: Seq<Seq<char>>, stamp: Seq<char>) -> Seq<Seq<char>> {
    seq!["path+=("@] + Seq::new(entries.len(), |i: int| item_line(entries[i])) + seq![
        seq![')'],
        "export PATH"@,
        stamp_line(stamp),
    ]
}

/// The lines that set `PATH` to `entries`.
pub fn render(entries: &Vec<Vec<char>>, stamp: &Vec<char>) -> (out: Vec<Vec<char>>)
    ensures
        rows(out@) == block(rows(entries@), stamp@),
{
    let mut out: Vec<Vec<char>> = Vec::new();
    out.push(chars_of("path+=("));
    let quote = chars_of("\"");
    let mut i: usize = 0;
    while i < entries.len()
        invariant
            i <= entries.len(),
            out.len() == i + 1,
            out@[0]@ == "path+=("@,
            quote@ == "\""@,
            forall|j: int| 1 <= j < i + 1 ==> (#[trigger] out@[j])@ == item_line(entries@[j - 1]@),
        decreases entries.len() - i,
    {
        let mut line = chars_of("  \"");
        push_all(&mut line, &entries[i]);
        push_all(&mut line, &quote);
        out.push(line);
        i += 1;
    }
    let mut close: Vec<char> = Vec::new();
    close.push(')');
    assert(close@ =~= seq![')']);
    out.push(close);
    out.push(chars_of("export PATH"));
    out.push(write_stamp_line(stamp));
    assert(rows(out@) =~= block(rows(entries@), stamp@));
    out
}

/// The handler for zsh.
pub struct ZshHandler {
    config_path: String,
}

impl ZshHandler {
    /// A handler for the startup file of the current user.
    pub fn new() -> (handler: Self)
        ensures
            handler.shell() == ShellType::Zsh,
            exists|home: Option<Seq<char>>|
                handler.location() == path_in(
                    home_or_root(home),
                    config_name(ShellType::Zsh),
                ),
    {
        ZshHandler { config_path: user_config_location(ShellType::Zsh) }
    }

    /// A handler for the startup file in the home directory `home`.
    pub fn in_home(home: &str) -> (handler: Self)
        ensures
            handler.shell() == ShellType::Zsh,
            handler.location() == path_in(home@, config_name(ShellType::Zsh)),
    {
        ZshHandler { config_path: default_config_location(ShellType::Zsh, home) }
    }
}

impl ShellHandler for ZshHandler {
    open spec fn shell(&self) -> ShellType {
        ShellType::Zsh
    }

    closed spec fn location(&self) -> Seq<char> {
        self.config_path@
    }

    fn get_shell_type(&self) -> ShellType {
        ShellType::Zsh
    }

    fn get_config_path(&self) -> String {
        self.config_path.clone()
    }
}

} // verus!
