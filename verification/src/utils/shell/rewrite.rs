//! The rewriting of a startup file. The statements about `PATH` are located
//! line by line; a freshly written statement takes the place of the first,
//! the others are removed, and every other line stays as it is and where it
//! is.

use vstd::prelude::*;
use crate::text::{
    chars_of, chars_of_all, copy_row, ends_with_newline, join, join_lines, join_with, lines_of,
    push_row, push_rows, rows, shown_lines, split_lines, split_shown_lines, string_of,
    strings_of_all, texts, unlines,
};
use crate::utils::shell::handlers::{bash, fish, tcsh, zsh};
use crate::utils::shell::types::{
    declared, Declaration, ModificationType, PathModification, ShellType,
};

verus! {

/// The number of lines of the statement about `PATH` that begins at line
/// `pos` of `ls` in the syntax of `shell`, or 0 where none begins there.
pub open spec fn span_len(shell: ShellType, ls: Seq<Seq<char>>, pos: int) -> int {
    match shell {
        ShellType::Zsh => zsh::span_len(ls, pos),
        ShellType::Fish => if fish::declares(ls[pos]) {
            1
        } else {
            0
        },
        ShellType::Tcsh => tcsh::span_len(ls, pos),
        _ => if bash::declares(ls[pos]) {
            1
        } else {
            0
        },
    }
}

/// The kind of the statement that begins at line `pos` of `ls`.
pub open spec fn span_kind(shell: ShellType, ls: Seq<Seq<char>>, pos: int) -> ModificationType {
    match shell {
        ShellType::Zsh => zsh::span_kind(ls, pos),
        ShellType::Fish => ModificationType::FishPath,
        ShellType::Tcsh => ModificationType::SetEnv,
        _ => bash::kind_of(ls[pos]),
    }
}

/// The directories that the statement beginning at line `pos` of `ls` names.
pub open spec fn span_entries(shell: ShellType, ls: Seq<Seq<char>>, pos: int) -> Seq<Seq<char>> {
    match shell {
        ShellType::Zsh => zsh::span_entries(ls, pos),
        ShellType::Fish => fish::line_entries(ls[pos]),
        ShellType::Tcsh => tcsh::line_entries(ls[pos]),
        _ => bash::line_entries(ls[pos]),
    }
}

/// The lines that set `PATH` to `entries` in the syntax of `shell`, marked
/// with the time `stamp`.
pub open spec fn block(shell: ShellType, entries: Seq<Seq<char>>, stamp: Seq<char>) -> Seq<
    Seq<char>,
> {
    match shell {
        ShellType::Zsh => zsh::block(entries, stamp),
        ShellType::Fish => fish::block(entries, stamp),
        ShellType::Tcsh => tcsh::block(entries, stamp),
        _ => bash::block(entries, stamp),
    }
}

/// Whether a statement about `PATH` begins at line `pos` of `ls`.
pub open spec fn starts_at(shell: ShellType, ls: Seq<Seq<char>>, pos: int) -> bool {
    0 <= pos < ls.len() && 0 < span_len(shell, ls, pos) <= ls.len() - pos
}

/// The statements about `PATH` in the lines of `ls` from `pos` on, in the
/// order of their first lines. A line inside one statement begins no other.
/// The text of a statement is made of its lines as `shown` holds them.
pub open spec fn declarations(
    shell: ShellType,
    ls: Seq<Seq<char>>,
    shown: Seq<Seq<char>>,
    pos: int,
) -> Seq<Declaration>
    decreases ls.len() - pos,
{
    if pos < 0 || pos >= ls.len() {
        Seq::empty()
    } else if starts_at(shell, ls, pos) {
        seq![
            Declaration {
                line: pos + 1,
                text: join(shown.subrange(pos, pos + span_len(shell, ls, pos)), '\n'),
                kind: span_kind(shell, ls, pos),
            },
        ] + declarations(shell, ls, shown, pos + span_len(shell, ls, pos))
    } else {
        declarations(shell, ls, shown, pos + 1)
    }
}

/// Those of the statements `found` that are arrays, or those that are not,
/// in their order.
pub open spec fn of_kind(found: Seq<Declaration>, arrays: bool) -> Seq<Declaration>
    decreases found.len(),
{
    if found.len() == 0 {
        Seq::empty()
    } else if (found[0].kind == ModificationType::ArrayModification) == arrays {
        seq![found[0]] + of_kind(found.skip(1), arrays)
    } else {
        of_kind(found.skip(1), arrays)
    }
}

/// The part of the statements `found` that a scan for arrays finds before
/// anything else is looked for: the arrays and blocks of zsh's syntax.
pub open spec fn found_first(shell: ShellType, found: Seq<Declaration>) -> Seq<Declaration> {
    if shell == ShellType::Zsh {
        of_kind(found, true)
    } else {
        Seq::empty()
    }
}

/// The part of the statements `found` that is found after the arrays.
pub open spec fn found_later(shell: ShellType, found: Seq<Declaration>) -> Seq<Declaration> {
    if shell == ShellType::Zsh {
        of_kind(found, false)
    } else {
        found
    }
}

/// The statements `found`, given in the order of their first lines, in the
/// order in which they are found: in zsh's syntax the arrays and blocks
/// first and the exports behind them, each in the order of their lines; in
/// every other syntax in the order of their lines.
pub open spec fn arranged(shell: ShellType, found: Seq<Declaration>) -> Seq<Declaration> {
    found_first(shell, found) + found_later(shell, found)
}

/// With one more statement at the front, each part has it at its front or
/// is as it was.
pub proof fn lemma_found_cons(shell: ShellType, d: Declaration, rest: Seq<Declaration>)
    ensures
        found_first(shell, seq![d] + rest) == if shell == ShellType::Zsh && d.kind
            == ModificationType::ArrayModification {
            seq![d] + found_first(shell, rest)
        } else {
            found_first(shell, rest)
        },
        found_later(shell, seq![d] + rest) == if shell == ShellType::Zsh && d.kind
            == ModificationType::ArrayModification {
            found_later(shell, rest)
        } else {
            seq![d] + found_later(shell, rest)
        },
{
    let all = seq![d] + rest;
    assert(all.skip(1) =~= rest);
    assert(all[0] == d);
}

/// The directories named by the statements about `PATH` in the lines of
/// `ls` from `pos` on, in order.
pub open spec fn entries_in(shell: ShellType, ls: Seq<Seq<char>>, pos: int) -> Seq<Seq<char>>
    decreases ls.len() - pos,
{
    if pos < 0 || pos >= ls.len() {
        Seq::empty()
    } else if starts_at(shell, ls, pos) {
        span_entries(shell, ls, pos) + entries_in(shell, ls, pos + span_len(shell, ls, pos))
    } else {
        entries_in(shell, ls, pos + 1)
    }
}

/// The lines of `ls` from `pos` on that belong to no statement about `PATH`,
/// in order.
pub open spec fn survivors(shell: ShellType, ls: Seq<Seq<char>>, pos: int) -> Seq<Seq<char>>
    decreases ls.len() - pos,
{
    if pos < 0 || pos >= ls.len() {
        Seq::empty()
    } else if starts_at(shell, ls, pos) {
        survivors(shell, ls, pos + span_len(shell, ls, pos))
    } else {
        seq![ls[pos]] + survivors(shell, ls, pos + 1)
    }
}

/// The first line at or after `pos` at which a statement about `PATH`
/// begins, or the number of lines where none does.
pub open spec fn anchor(shell: ShellType, ls: Seq<Seq<char>>, pos: int) -> int
    decreases ls.len() - pos,
{
    if 0 <= pos < ls.len() && !starts_at(shell, ls, pos) {
        anchor(shell, ls, pos + 1)
    } else {
        pos
    }
}

/// The lines of a rewritten file: those before the first statement about
/// `PATH`, the lines `fresh` in its place, and behind them the lines that
/// belong to no statement. Where there is no statement, `fresh` comes last.
pub open spec fn rewritten_lines(
    shell: ShellType,
    ls: Seq<Seq<char>>,
    fresh: Seq<Seq<char>>,
) -> Seq<Seq<char>> {
    let a = anchor(shell, ls, 0);
    ls.take(a) + fresh + survivors(shell, ls, a)
}

/// The text that sets `PATH` to `entries` in the syntax of `shell`.
pub open spec fn rendered(shell: ShellType, entries: Seq<Seq<char>>, stamp: Seq<char>) -> Seq<
    char,
> {
    join(block(shell, entries, stamp), '\n')
}

/// The statements about `PATH` in `content`, in the order of their first
/// lines. The text of each is made of its lines as they are shown, without
/// the carriage return that a line end may hold.
pub open spec fn statements(shell: ShellType, content: Seq<char>) -> Seq<Declaration> {
    declarations(shell, lines_of(content), shown_lines(content), 0)
}

/// The statements about `PATH` in `content`, in the order in which they are
/// found.
pub open spec fn located(shell: ShellType, content: Seq<char>) -> Seq<Declaration> {
    arranged(shell, statements(shell, content))
}

/// The directories that the statements about `PATH` in `content` name, as
/// they are written there.
pub open spec fn extracted(shell: ShellType, content: Seq<char>) -> Seq<Seq<char>> {
    entries_in(shell, lines_of(content), 0)
}

/// The lines that a rewrite works on: the lines of `content`, and one empty
/// line for the empty text, so that what is written behind a text is always
/// set off from it by a line break.
pub open spec fn base_lines(content: Seq<char>) -> Seq<Seq<char>> {
    if content.len() == 0 {
        seq![Seq::empty()]
    } else {
        lines_of(content)
    }
}

/// `content` rewritten to set `PATH` to `entries`. It ends with a line break
/// where `content` does.
pub open spec fn rewritten(
    shell: ShellType,
    content: Seq<char>,
    entries: Seq<Seq<char>>,
    stamp: Seq<char>,
) -> Seq<char> {
    unlines(
        rewritten_lines(shell, base_lines(content), block(shell, entries, stamp)),
        ends_with_newline(content),
    )
}

/// The number of lines of the statement that begins at line `pos`.
pub fn span_at(shell: ShellType, lines: &Vec<Vec<char>>, pos: usize) -> (n: usize)
    requires
        pos < lines.len(),
    ensures
        n == span_len(shell, rows(lines@), pos as int),
        n <= lines.len() - pos,
        n > 0 <==> starts_at(shell, rows(lines@), pos as int),
{
    let found = match shell {
        ShellType::Zsh => {
            return zsh::span_at(lines, pos);
        },
        ShellType::Tcsh => {
            return tcsh::span_at(lines, pos);
        },
        ShellType::Fish => fish::is_declaration(&lines[pos]),
        _ => bash::is_declaration(&lines[pos]),
    };
    if found {
        1
    } else {
        0
    }
}

/// The kind of the statement that begins at line `pos`.
pub fn kind_at(shell: ShellType, lines: &Vec<Vec<char>>, pos: usize) -> (k: ModificationType)
    requires
        pos < lines.len(),
    ensures
        k == span_kind(shell, rows(lines@), pos as int),
{
    match shell {
        ShellType::Zsh => zsh::kind_at(lines, pos),
        ShellType::Fish => ModificationType::FishPath,
        ShellType::Tcsh => ModificationType::SetEnv,
        _ => bash::kind_of_line(&lines[pos]),
    }
}

/// The directories that the statement beginning at line `pos` names.
pub fn entries_at(shell: ShellType, lines: &Vec<Vec<char>>, pos: usize) -> (out: Vec<Vec<char>>)
    requires
        pos < lines.len(),
    ensures
        rows(out@) == span_entries(shell, rows(lines@), pos as int),
{
    match shell {
        ShellType::Zsh => zsh::entries_at(lines, pos),
        ShellType::Fish => fish::entries_of_line(&lines[pos]),
        ShellType::Tcsh => tcsh::entries_of_line(&lines[pos]),
        _ => bash::entries_of_line(&lines[pos]),
    }
}

/// The lines that set `PATH` to `entries` in the syntax of `shell`.
pub fn render_lines(shell: ShellType, entries: &Vec<Vec<char>>, stamp: &Vec<char>) -> (out: Vec<
    Vec<char>,
>)
    ensures
        rows(out@) == block(shell, rows(entries@), stamp@),
{
    match shell {
        ShellType::Zsh => zsh::render(entries, stamp),
        ShellType::Fish => fish::render(entries, stamp),
        ShellType::Tcsh => tcsh::render(entries, stamp),
        _ => bash::render(entries, stamp),
    }
}

/// The lines of a rewritten file: `fresh` in the place of the first
/// statement about `PATH`, the other statements removed.
pub fn rewrite_lines(shell: ShellType, lines: &Vec<Vec<char>>, fresh: Vec<Vec<char>>) -> (out: Vec<
    Vec<char>,
>)
    ensures
        rows(out@) == rewritten_lines(shell, rows(lines@), rows(fresh@)),
{
    let ghost ls = rows(lines@);
    let ghost goal = rewritten_lines(shell, ls, rows(fresh@));
    let mut out: Vec<Vec<char>> = Vec::new();
    let mut pos: usize = 0;
    assert(rows(out@) =~= ls.take(0));
    while pos < lines.len() && span_at(shell, lines, pos) == 0
        invariant
            pos <= lines.len(),
            ls == rows(lines@),
            anchor(shell, ls, 0) == anchor(shell, ls, pos as int),
            rows(out@) == ls.take(pos as int),
        decreases lines.len() - pos,
    {
        push_row(&mut out, copy_row(lines, pos));
        assert(rows(out@) =~= ls.take(pos + 1));
        pos += 1;
    }
    assert(pos == anchor(shell, ls, 0));
    push_rows(&mut out, fresh);
    assert(goal == rows(out@) + survivors(shell, ls, pos as int));
    while pos < lines.len()
        invariant
            pos <= lines.len(),
            ls == rows(lines@),
            goal == rows(out@) + survivors(shell, ls, pos as int),
        decreases lines.len() - pos,
    {
        let n = span_at(shell, lines, pos);
        if n > 0 {
            pos += n;
        } else {
            push_row(&mut out, copy_row(lines, pos));
            assert(goal =~= rows(out@) + survivors(shell, ls, pos + 1));
            pos += 1;
        }
    }
    assert(goal =~= rows(out@));
    out
}

/// Rewrites `content`, the text of a startup file, so that it sets `PATH` to
/// `entries` in the syntax of `shell`. The freshly written statement, marked
/// with the time `stamp`, takes the place of the first statement about
/// `PATH`; every other such statement is removed; all other lines stay. A
/// text without any such statement gets the new one at its end, behind a
/// line break.
pub fn rewrite(shell: ShellType, content: &str, entries: &[String], stamp: &str) -> (out: String)
    ensures
        out@ == rewritten(shell, content@, texts(entries@), stamp@),
{
    let text = chars_of(content);
    let closed = text.len() > 0 && text[text.len() - 1] == '\n';
    let mut lines = split_lines(&text);
    if text.len() == 0 {
        lines = Vec::new();
        push_row(&mut lines, Vec::new());
        assert(rows(lines@) =~= base_lines(content@));
    }
    let wanted = chars_of_all(entries);
    let time = chars_of(stamp);
    let fresh = render_lines(shell, &wanted, &time);
    let result = rewrite_lines(shell, &lines, fresh);
    let joined = join_lines(&result, closed);
    string_of(&joined)
}

/// The text that sets `PATH` to `entries` in the syntax of `shell`, marked
/// with the time `stamp`: its lines with a line break between each two.
pub fn render_declaration(shell: ShellType, entries: &[String], stamp: &str) -> (out: String)
    ensures
        out@ == rendered(shell, texts(entries@), stamp@),
{
    let wanted = chars_of_all(entries);
    let time = chars_of(stamp);
    let fresh = render_lines(shell, &wanted, &time);
    let joined = join_with(&fresh, '\n');
    string_of(&joined)
}

/// The statements about `PATH` in `content`, in the order in which they are
/// found: in zsh's syntax the arrays and blocks first, then the exports; in
/// every other syntax by line. Each carries the number of its first line
/// and its text, line by line without the carriage return of a line end.
pub fn locate_declarations(shell: ShellType, content: &str) -> (out: Vec<PathModification>)
    ensures
        declared(out@) == located(shell, content@),
{
    let text = chars_of(content);
    let lines = split_lines(&text);
    let shown = split_shown_lines(&text);
    let ghost ls = rows(lines@);
    let ghost sh = rows(shown@);
    let ghost all = statements(shell, content@);
    let arrays_first = match shell {
        ShellType::Zsh => true,
        _ => false,
    };
    let mut first: Vec<PathModification> = Vec::new();
    let mut later: Vec<PathModification> = Vec::new();
    let mut pos: usize = 0;
    assert(declared(first@) + found_first(shell, all) =~= found_first(shell, all));
    assert(declared(later@) + found_later(shell, all) =~= found_later(shell, all));
    while pos < lines.len()
        invariant
            pos <= lines.len(),
            ls == rows(lines@),
            sh == rows(shown@),
            sh.len() == ls.len(),
            ls == lines_of(content@),
            sh == shown_lines(content@),
            all == statements(shell, content@),
            arrays_first == (shell == ShellType::Zsh),
            found_first(shell, all) == declared(first@) + found_first(
                shell,
                declarations(shell, ls, sh, pos as int),
            ),
            found_later(shell, all) == declared(later@) + found_later(
                shell,
                declarations(shell, ls, sh, pos as int),
            ),
        decreases lines.len() - pos,
    {
        let n = span_at(shell, &lines, pos);
        if n > 0 {
            let mut span: Vec<Vec<char>> = Vec::new();
            let mut i: usize = pos;
            assert(rows(span@) =~= sh.subrange(pos as int, pos as int));
            while i < pos + n
                invariant
                    pos <= i <= pos + n <= lines.len(),
                    sh == rows(shown@),
                    sh.len() == lines.len(),
                    rows(span@) == sh.subrange(pos as int, i as int),
                decreases pos + n - i,
            {
                push_row(&mut span, copy_row(&shown, i));
                assert(rows(span@) =~= sh.subrange(pos as int, i + 1));
                i += 1;
            }
            let text = join_with(&span, '\n');
            let kind = kind_at(shell, &lines, pos);
            let found = PathModification {
                line_number: pos + 1,
                content: string_of(&text),
                modification_type: kind,
            };
            let ghost rest = declarations(shell, ls, sh, pos + n);
            proof {
                lemma_found_cons(shell, found@, rest);
                assert(declarations(shell, ls, sh, pos as int) == seq![found@] + rest);
            }
            if arrays_first && kind == ModificationType::ArrayModification {
                let ghost before = declared(first@);
                first.push(found);
                assert(declared(first@) =~= before.push(found@));
                assert(found_first(shell, all) =~= declared(first@) + found_first(shell, rest));
            } else {
                let ghost before = declared(later@);
                later.push(found);
                assert(declared(later@) =~= before.push(found@));
                assert(found_later(shell, all) =~= declared(later@) + found_later(shell, rest));
            }
            pos += n;
        } else {
            pos += 1;
        }
    }
    let ghost front = declared(first@);
    let ghost back = declared(later@);
    assert(found_first(shell, all) =~= front);
    assert(found_later(shell, all) =~= back);
    first.append(&mut later);
    assert(declared(first@) =~= front + back);
    first
}

/// The directories that the statements about `PATH` in `content` name, in
/// order and as they are written there.
pub fn extract_entries(shell: ShellType, content: &str) -> (out: Vec<String>)
    ensures
        texts(out@) == extracted(shell, content@),
{
    let text = chars_of(content);
    let lines = split_lines(&text);
    let ghost ls = rows(lines@);
    let mut found: Vec<Vec<char>> = Vec::new();
    let mut pos: usize = 0;
    assert(rows(found@) + entries_in(shell, ls, 0) =~= extracted(shell, content@));
    while pos < lines.len()
        invariant
            pos <= lines.len(),
            ls == rows(lines@),
            extracted(shell, content@) == rows(found@) + entries_in(shell, ls, pos as int),
        decreases lines.len() - pos,
    {
        let n = span_at(shell, &lines, pos);
        if n > 0 {
            let more = entries_at(shell, &lines, pos);
            let ghost before = rows(found@);
            push_rows(&mut found, more);
            assert(extracted(shell, content@) =~= rows(found@) + entries_in(shell, ls, pos + n));
            pos += n;
        } else {
            pos += 1;
        }
    }
    assert(extracted(shell, content@) =~= rows(found@));
    strings_of_all(&found)
}

} // verus!
