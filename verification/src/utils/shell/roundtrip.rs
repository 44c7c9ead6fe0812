//! Reading back what was written: the statements that the library writes
//! name, when read again, the directories it was given.

use vstd::prelude::*;
use crate::outside::{expands_to, has_dollar, is_stamp, is_stamp_char, led_by_tilde};
use crate::text::{
    ends_with_newline, has_at, in_class, index_of, is_blank, is_space, is_wrap, join,
    lemma_first_pair, lemma_skip_class, lemma_trim_end_len, lines_of, pair_at, shown_lines,
    starts_with, trim_end_len, trimmed, unlines, CharClass,
};
use crate::text_facts::{
    all_free_of, all_lack, free_of, lacks, lemma_absent_char, lemma_find_class_is,
    lemma_index_of_is, lemma_join_free_of, lemma_join_lacks, lemma_join_nonempty,
    lemma_lines_unlines, lemma_no_pair, lemma_pair_at_start, lemma_skip_class_is,
    lemma_split_join, lemma_trimmed_core, lemma_trimmed_same, lemma_words_join,
};
use crate::utils::shell::handlers::{bash, expanded_from, fish, stamp_line, tcsh, zsh};
use crate::utils::shell::laws::{
    lemma_anchor, lemma_block_ends, lemma_block_lacks_newline,
    lemma_rewritten_lines_lack_newline, lemma_survivors_keep,
};
use crate::utils::shell::rewrite::{
    anchor, arranged, base_lines, block, declarations, entries_in, extracted, located, of_kind,
    rendered, rewritten, rewritten_lines, span_entries, span_len, starts_at, statements,
    survivors,
};
use crate::utils::shell::types::{Declaration, ModificationType, ShellType};

verus! {

/// Whether `shell` writes statements as bash does.
pub open spec fn is_posix(shell: ShellType) -> bool {
    shell == ShellType::Bash || shell == ShellType::Ksh || shell == ShellType::Generic
}

/// Whether bash's syntax can write `entries` down so that they are read
/// again as they are: no directory holds a quote, a colon or a line break,
/// and the list is not one directory of white space only, which is read as
/// no directory.
pub open spec fn posix_writable(entries: Seq<Seq<char>>) -> bool {
    &&& all_free_of(entries, CharClass::Quote)
    &&& all_lack(entries, ':')
    &&& all_lack(entries, '\n')
    &&& !(entries.len() == 1 && is_blank(entries[0]))
}

/// Whether zsh's syntax can write `entry` down so that it is read again as
/// it is: it is not empty, holds no line break, and neither begins nor ends
/// with a quote or a blank.
pub open spec fn zsh_writable(entry: Seq<char>) -> bool {
    entry.len() > 0 && lacks(entry, '\n') && !is_wrap(entry[0]) && !is_wrap(entry.last())
}

/// Whether fish's syntax can write `entry` down so that it is read again as
/// it is: it is not empty, holds no line break, and neither begins nor ends
/// with white space.
pub open spec fn fish_writable(entry: Seq<char>) -> bool {
    entry.len() > 0 && lacks(entry, '\n') && !is_space(entry[0]) && !is_space(entry.last())
}

/// Whether tcsh's syntax can write `entry` down so that it is read again as
/// it is: it is not empty and holds no white space, `#`, closing bracket or
/// colon.
pub open spec fn tcsh_writable(entry: Seq<char>) -> bool {
    entry.len() > 0 && free_of(entry, CharClass::Stop) && lacks(entry, ')') && lacks(entry, ':')
}

/// Whether the syntax of `shell` can write `entries` down so that they are
/// read again as they are.
pub open spec fn writable(shell: ShellType, entries: Seq<Seq<char>>) -> bool {
    match shell {
        ShellType::Zsh => forall|i: int|
            0 <= i < entries.len() ==> zsh_writable(#[trigger] entries[i]),
        ShellType::Fish => forall|i: int|
            0 <= i < entries.len() ==> fish_writable(#[trigger] entries[i]),
        ShellType::Tcsh => forall|i: int|
            0 <= i < entries.len() ==> tcsh_writable(#[trigger] entries[i]),
        _ => posix_writable(entries),
    }
}

/// Whether `c` has a meaning of its own in some shell's statements about
/// `PATH`: white space, a quote, a colon, `#` or a closing bracket.
pub open spec fn is_special(c: char) -> bool {
    is_space(c) || c == '"' || c == '\'' || c == ':' || c == '#' || c == ')'
}

/// Whether `entry` is a plain directory: not empty and without special
/// characters.
pub open spec fn is_plain(entry: Seq<char>) -> bool {
    entry.len() > 0 && forall|i: int| 0 <= i < entry.len() ==> !is_special(#[trigger] entry[i])
}

/// Whether all of `entries` are plain.
pub open spec fn all_plain(entries: Seq<Seq<char>>) -> bool {
    forall|i: int| 0 <= i < entries.len() ==> is_plain(#[trigger] entries[i])
}

/// Every syntax can write plain directories down so that they are read
/// again as they are.
pub proof fn lemma_plain_is_writable(shell: ShellType, entries: Seq<Seq<char>>)
    requires
        all_plain(entries),
    ensures
        writable(shell, entries),
{
    assert forall|i: int| 0 <= i < entries.len() implies zsh_writable(#[trigger] entries[i])
        && fish_writable(entries[i]) && tcsh_writable(entries[i]) && free_of(
        entries[i],
        CharClass::Quote,
    ) && free_of(entries[i], CharClass::Space) && lacks(entries[i], ':') by {
        let e = entries[i];
        assert(is_plain(e));
        assert(!is_special(e[0]));
        assert(!is_special(e.last()));
    }
    if is_posix(shell) {
        let j = join(entries, ':');
        assert(all_lack(entries, '\n')) by {
            assert forall|i: int| 0 <= i < entries.len() implies lacks(
                #[trigger] entries[i],
                '\n',
            ) by {
                assert(zsh_writable(entries[i]));
            }
        }
        if entries.len() > 0 {
            assert(fish_writable(entries[0]));
        }
    }
}

/// Directories that can be written down hold no line break.
pub proof fn lemma_writable_lacks_newline(
    shell: ShellType,
    entries: Seq<Seq<char>>,
    stamp: Seq<char>,
)
    requires
        writable(shell, entries),
        is_stamp(stamp),
    ensures
        all_lack(entries, '\n'),
        lacks(stamp, '\n'),
{
    assert forall|i: int| 0 <= i < entries.len() implies lacks(#[trigger] entries[i], '\n') by {
        match shell {
            ShellType::Zsh => {
                assert(zsh_writable(entries[i]));
            },
            ShellType::Fish => {
                assert(fish_writable(entries[i]));
            },
            ShellType::Tcsh => {
                assert(tcsh_writable(entries[i]));
            },
            _ => {},
        }
    }
}

/// Lines at which no statement begins name no directory.
pub proof fn lemma_entries_skip(shell: ShellType, zs: Seq<Seq<char>>, from: int, to: int)
    requires
        0 <= from <= to <= zs.len(),
        forall|p: int| from <= p < to ==> !starts_at(shell, zs, p),
    ensures
        entries_in(shell, zs, from) == entries_in(shell, zs, to),
    decreases to - from,
{
    if from < to {
        assert(!starts_at(shell, zs, from));
        lemma_entries_skip(shell, zs, from + 1, to);
    }
}

/// Lines at which no statement begins hold no statement.
pub proof fn lemma_declarations_skip(
    shell: ShellType,
    zs: Seq<Seq<char>>,
    shown: Seq<Seq<char>>,
    from: int,
    to: int,
)
    requires
        0 <= from <= to <= zs.len(),
        forall|p: int| from <= p < to ==> !starts_at(shell, zs, p),
    ensures
        declarations(shell, zs, shown, from) == declarations(shell, zs, shown, to),
    decreases to - from,
{
    if from < to {
        assert(!starts_at(shell, zs, from));
        lemma_declarations_skip(shell, zs, shown, from + 1, to);
    }
}

/// The comment of a written statement lacks every character that neither
/// its fixed words nor a time can hold.
pub proof fn lemma_stamp_line_lacks(stamp: Seq<char>, c: char)
    requires
        is_stamp(stamp),
        !is_stamp_char(c),
        lacks("# Updated by pathmaster on "@, c),
    ensures
        lacks(stamp_line(stamp), c),
{
    let head = "# Updated by pathmaster on "@;
    let line = stamp_line(stamp);
    assert forall|i: int| 0 <= i < line.len() implies #[trigger] line[i] != c by {
        if i < head.len() {
            assert(line[i] == head[i]);
        } else {
            assert(line[i] == stamp[i - head.len()]);
        }
    }
}

/// In bash's syntax the comment of a written statement is no statement
/// about `PATH`.
pub proof fn lemma_posix_stamp_line(stamp: Seq<char>)
    requires
        is_stamp(stamp),
    ensures
        !bash::declares(stamp_line(stamp)),
{
    reveal_strlit("# Updated by pathmaster on ");
    reveal_strlit("PATH=");
    reveal_strlit("PATH=$PATH:");
    let line = stamp_line(stamp);
    lemma_stamp_line_lacks(stamp, 'P');
    lemma_absent_char(line, "PATH="@, 0);
    lemma_absent_char(line, "PATH=$PATH:"@, 0);
    lemma_no_pair(line, "export"@, "PATH="@);
}

/// The value that a colon-separated list written between quotes at the end
/// of a line is read as: the directories that were joined.
pub proof fn lemma_quoted_value(line: Seq<char>, from: int, entries: Seq<Seq<char>>)
    requires
        posix_writable(entries),
        0 <= from <= line.len(),
        line == line.take(from) + seq!['"'] + join(entries, ':') + seq!['"'],
    ensures
        bash::colon_entries(bash::quoted_value(line, from)) == entries,
{
    let j = join(entries, ':');
    lemma_join_free_of(entries, ':', CharClass::Quote);
    let b = from + 1;
    let e = b + j.len();
    assert(line.take(from).len() == from);
    assert(line.len() == e + 1);
    assert(line[from] == '"');
    assert forall|k: int| b <= k < e implies !in_class(CharClass::Quote, #[trigger] line[k]) by {
        assert(line[k] == j[k - b]);
    }
    assert(line[e] == '"');
    lemma_find_class_is(line, CharClass::Quote, b, e);
    assert(line.subrange(b, e) =~= j);
    if entries.len() == 0 {
        assert(entries =~= Seq::<Seq<char>>::empty());
    } else {
        if entries.len() >= 2 {
            // a colon stands in the value, and a colon is no white space
            let first = entries[0];
            assert(j[first.len() as int] == ':');
            lemma_skip_class(j, CharClass::Space, 0);
        }
        lemma_split_join(entries, ':');
    }
}

/// In bash's syntax the written assignment is a statement about `PATH`, and
/// it names the directories that were written.
pub proof fn lemma_posix_export_line(entries: Seq<Seq<char>>)
    requires
        posix_writable(entries),
    ensures
        bash::declares(bash::export_line(entries)),
        bash::line_entries(bash::export_line(entries)) == entries,
{
    reveal_strlit("export PATH=\"");
    reveal_strlit("export");
    reveal_strlit("PATH=");
    reveal_strlit("\"");
    let line = bash::export_line(entries);
    let j = join(entries, ':');
    assert(line.subrange(0, 6) =~= "export"@);
    assert(line[6] == ' ');
    assert(line[7] == 'P');
    lemma_skip_class_is(line, CharClass::Space, 6, 7);
    assert(line.subrange(7, 12) =~= "PATH="@);
    assert(pair_at(line, "export"@, "PATH="@, 0));
    lemma_pair_at_start(line, "export"@, "PATH="@);
    assert(bash::value_start(line) == 12);
    assert(line =~= line.take(12) + seq!['"'] + j + seq!['"']);
    lemma_quoted_value(line, 12, entries);
}

/// Where the lines that bash's syntax writes stand in a text from line `k`
/// on, the directories read from there on are those written, and what
/// follows.
pub proof fn lemma_posix_fresh(
    shell: ShellType,
    zs: Seq<Seq<char>>,
    k: int,
    entries: Seq<Seq<char>>,
    stamp: Seq<char>,
)
    requires
        is_posix(shell),
        posix_writable(entries),
        is_stamp(stamp),
        0 <= k,
        k + 2 <= zs.len(),
        zs.subrange(k, k + 2) == bash::block(entries, stamp),
    ensures
        !starts_at(shell, zs, k),
        starts_at(shell, zs, k + 1),
        entries_in(shell, zs, k) == entries + entries_in(shell, zs, k + 2),
{
    assert(zs[k] == zs.subrange(k, k + 2)[0]);
    assert(zs[k + 1] == zs.subrange(k, k + 2)[1]);
    lemma_posix_stamp_line(stamp);
    lemma_posix_export_line(entries);
    assert(span_len(shell, zs, k) == 0);
    assert(span_len(shell, zs, k + 1) == 1);
    assert(span_entries(shell, zs, k + 1) == entries);
    assert(entries_in(shell, zs, k) == entries_in(shell, zs, k + 1));
}

/// In fish's syntax neither the comment of a written statement nor the line
/// that clears `PATH` is a statement about `PATH`.
pub proof fn lemma_fish_quiet_lines(stamp: Seq<char>)
    requires
        is_stamp(stamp),
    ensures
        !fish::declares(stamp_line(stamp)),
        !fish::declares("set -e PATH"@),
{
    reveal_strlit("# Updated by pathmaster on ");
    reveal_strlit("fish_add_path");
    reveal_strlit("set -gx PATH");
    reveal_strlit("set -e PATH");
    let line = stamp_line(stamp);
    lemma_stamp_line_lacks(stamp, 'f');
    lemma_absent_char(line, "fish_add_path"@, 0);
    lemma_stamp_line_lacks(stamp, 'P');
    lemma_absent_char(line, "set -gx PATH"@, 8);
    lemma_absent_char("set -e PATH"@, "fish_add_path"@, 0);
    lemma_absent_char("set -e PATH"@, "set -gx PATH"@, 5);
}

/// In fish's syntax the line written for a directory is a statement about
/// `PATH` and names that directory.
pub proof fn lemma_fish_add_line(entry: Seq<char>)
    requires
        fish_writable(entry),
    ensures
        fish::declares(fish::add_line(entry)),
        fish::line_entries(fish::add_line(entry)) == seq![entry],
{
    reveal_strlit("fish_add_path ");
    reveal_strlit("fish_add_path");
    reveal_strlit("");
    let line = fish::add_line(entry);
    let word = "fish_add_path"@;
    assert(line.subrange(0, 13) =~= word);
    assert(has_at(line, word, 0));
    assert(line[0] == 'f');
    assert(line.last() == entry.last());
    lemma_trimmed_same(line, CharClass::Space);
    assert(line[13] == ' ');
    assert(line[14] == entry[0]);
    lemma_skip_class_is(line, CharClass::Space, 13, 14);
    assert(line.subrange(14, 14) =~= ""@);
    assert(pair_at(line, word, ""@, 0));
    lemma_pair_at_start(line, word, ""@);
    assert(line.subrange(14, line.len() as int) =~= entry);
}

/// The lines that fish's syntax writes for directories name them in order.
pub proof fn lemma_fish_adds(zs: Seq<Seq<char>>, base: int, entries: Seq<Seq<char>>, i: int)
    requires
        writable(ShellType::Fish, entries),
        0 <= i <= entries.len(),
        0 <= base,
        base + entries.len() <= zs.len(),
        forall|j: int|
            0 <= j < entries.len() ==> #[trigger] zs[base + j] == fish::add_line(entries[j]),
    ensures
        entries_in(ShellType::Fish, zs, base + i) == entries.skip(i) + entries_in(
            ShellType::Fish,
            zs,
            base + entries.len(),
        ),
        forall|p: int| base + i <= p < base + entries.len() ==> starts_at(ShellType::Fish, zs, p),
    decreases entries.len() - i,
{
    if i < entries.len() {
        assert(fish_writable(entries[i]));
        lemma_fish_add_line(entries[i]);
        lemma_fish_adds(zs, base, entries, i + 1);
        assert(zs[base + i] == fish::add_line(entries[i]));
        assert(span_len(ShellType::Fish, zs, base + i) == 1);
        assert(entries.skip(i) =~= seq![entries[i]] + entries.skip(i + 1));
    } else {
        assert(entries.skip(i) =~= Seq::<Seq<char>>::empty());
    }
}

/// In tcsh's syntax the comment of a written statement is no statement
/// about `PATH`.
pub proof fn lemma_tcsh_stamp_line(stamp: Seq<char>)
    requires
        is_stamp(stamp),
    ensures
        !tcsh::declares(stamp_line(stamp)),
{
    reveal_strlit("# Updated by pathmaster on ");
    reveal_strlit("PATH");
    reveal_strlit("=");
    let line = stamp_line(stamp);
    lemma_stamp_line_lacks(stamp, 'P');
    lemma_absent_char(line, "PATH"@, 0);
    lemma_no_pair(line, "setenv"@, "PATH"@);
    lemma_stamp_line_lacks(stamp, '=');
    lemma_absent_char(line, "="@, 0);
}

/// In tcsh's syntax the written array is a statement about `PATH` and names
/// the directories that were written.
pub proof fn lemma_tcsh_array_line(entries: Seq<Seq<char>>)
    requires
        writable(ShellType::Tcsh, entries),
    ensures
        tcsh::sets_array(tcsh::array_line(entries)),
        tcsh::array_entries(tcsh::array_line(entries)) == entries,
{
    reveal_strlit("set path = (");
    reveal_strlit("set");
    reveal_strlit("path");
    reveal_strlit("=");
    reveal_strlit("(");
    reveal_strlit(")");
    let line = tcsh::array_line(entries);
    let j = join(entries, ' ');
    assert forall|i: int| 0 <= i < entries.len() implies (#[trigger] entries[i]).len() > 0
        && free_of(entries[i], CharClass::Space) && lacks(entries[i], ')') by {
        assert(tcsh_writable(entries[i]));
    }
    lemma_join_lacks(entries, ' ', ')');
    assert(line.subrange(0, 3) =~= "set"@);
    assert(line[3] == ' ');
    assert(line[4] == 'p');
    lemma_skip_class_is(line, CharClass::Space, 3, 4);
    assert(line.subrange(4, 8) =~= "path"@);
    assert(pair_at(line, "set"@, "path"@, 0));
    lemma_pair_at_start(line, "set"@, "path"@);
    assert(line[8] == ' ');
    assert(line[9] == '=');
    lemma_skip_class_is(line, CharClass::Space, 8, 9);
    assert(line.subrange(9, 10) =~= "="@);
    assert(line[10] == ' ');
    assert(line[11] == '(');
    lemma_skip_class_is(line, CharClass::Space, 10, 11);
    assert(line.subrange(11, 12) =~= "("@);
    let c: int = 12 + j.len() as int;
    assert forall|k: int| 12 <= k < c implies #[trigger] line[k] != ')' by {
        assert(line[k] == j[k - 12]);
    }
    assert(line[c] == ')');
    lemma_index_of_is(line, ')', 12, c);
    assert(line.subrange(12, c) =~= j);
    lemma_words_join(entries);
}

/// In tcsh's syntax the written variable is a statement about `PATH` and
/// names the directories that were written.
pub proof fn lemma_tcsh_variable_line(entries: Seq<Seq<char>>)
    requires
        writable(ShellType::Tcsh, entries),
    ensures
        !tcsh::sets_array(tcsh::variable_line(entries)),
        tcsh::sets_variable(tcsh::variable_line(entries)),
        tcsh::variable_entries(tcsh::variable_line(entries)) == entries,
{
    reveal_strlit("setenv PATH ");
    reveal_strlit("setenv");
    reveal_strlit("PATH");
    reveal_strlit("set");
    reveal_strlit("path");
    let line = tcsh::variable_line(entries);
    let j = join(entries, ':');
    assert forall|i: int| 0 <= i < entries.len() implies (#[trigger] entries[i]).len() > 0
        && free_of(entries[i], CharClass::Stop) && lacks(entries[i], ':') by {
        assert(tcsh_writable(entries[i]));
    }
    lemma_join_free_of(entries, ':', CharClass::Stop);
    // the line sets no array: a blank stands only behind `setenv` and
    // behind `PATH`, and neither ends with `set`
    assert forall|i: int| 0 <= i implies !#[trigger] pair_at(line, "set"@, "path"@, i) by {
        if pair_at(line, "set"@, "path"@, i) {
            assert(line.subrange(i, i + 3)[0] == line[i]);
            assert(line.subrange(i, i + 3)[2] == line[i + 2]);
            assert(in_class(CharClass::Space, line[i + 3]));
            if i + 3 >= 12 {
                assert(line[i + 3] == j[i + 3 - 12]);
                assert(!in_class(CharClass::Stop, j[i + 3 - 12]));
            }
        }
    }
    lemma_first_pair(line, "set"@, "path"@, 0);
    assert(!tcsh::sets_array(line));
    assert(line.subrange(0, 6) =~= "setenv"@);
    assert(line[6] == ' ');
    assert(line[7] == 'P');
    lemma_skip_class_is(line, CharClass::Space, 6, 7);
    assert(line.subrange(7, 11) =~= "PATH"@);
    assert(pair_at(line, "setenv"@, "PATH"@, 0));
    lemma_pair_at_start(line, "setenv"@, "PATH"@);
    assert(line[11] == ' ');
    if j.len() > 0 {
        assert(line[12] == j[0]);
        assert(!in_class(CharClass::Stop, j[0]));
    }
    lemma_skip_class_is(line, CharClass::Space, 11, 12);
    assert forall|k: int| 12 <= k < line.len() implies !in_class(
        CharClass::Stop,
        #[trigger] line[k],
    ) by {
        assert(line[k] == j[k - 12]);
    }
    lemma_find_class_is(line, CharClass::Stop, 12, line.len() as int);
    assert(line.subrange(12, line.len() as int) =~= j);
    if entries.len() > 0 {
        lemma_join_nonempty(entries, ':');
        lemma_split_join(entries, ':');
    } else {
        assert(entries =~= Seq::<Seq<char>>::empty());
    }
}

/// Where the lines that a syntax writes stand in a text from line `k` on,
/// the directories read from there on are those written, and what follows
/// them. This is for the syntaxes in which every statement is one line.
pub proof fn lemma_fresh_lines(
    shell: ShellType,
    zs: Seq<Seq<char>>,
    k: int,
    entries: Seq<Seq<char>>,
    stamp: Seq<char>,
)
    requires
        shell != ShellType::Zsh,
        writable(shell, entries),
        is_stamp(stamp),
        0 <= k,
        k + block(shell, entries, stamp).len() <= zs.len(),
        zs.subrange(k, k + block(shell, entries, stamp).len()) == block(shell, entries, stamp),
    ensures
        entries_in(shell, zs, k) == entries + entries_in(
            shell,
            zs,
            k + block(shell, entries, stamp).len(),
        ),
{
    let fresh = block(shell, entries, stamp);
    let part = zs.subrange(k, k + fresh.len());
    assert forall|j: int| 0 <= j < fresh.len() implies #[trigger] zs[k + j] == fresh[j] by {
        assert(part[j] == zs[k + j]);
    }
    match shell {
        ShellType::Fish => {
            lemma_fish_quiet_lines(stamp);
            assert(zs[k + 0] == fresh[0]);
            assert(zs[k + 1] == fresh[1]);
            assert(span_len(shell, zs, k) == 0);
            assert(span_len(shell, zs, k + 1) == 0);
            assert(entries_in(shell, zs, k) == entries_in(shell, zs, k + 1));
            assert(entries_in(shell, zs, k + 1) == entries_in(shell, zs, k + 2));
            assert forall|j: int| 0 <= j < entries.len() implies #[trigger] zs[k + 2 + j]
                == fish::add_line(entries[j]) by {
                assert(zs[k + (2 + j)] == fresh[2 + j]);
            }
            lemma_fish_adds(zs, k + 2, entries, 0);
            assert(entries.skip(0) =~= entries);
        },
        ShellType::Tcsh => {
            lemma_tcsh_stamp_line(stamp);
            lemma_tcsh_array_line(entries);
            lemma_tcsh_variable_line(entries);
            assert(zs[k + 0] == fresh[0]);
            assert(zs[k + 1] == fresh[1]);
            assert(zs[k + 2] == fresh[2]);
            assert(span_len(shell, zs, k) == 0);
            assert(tcsh::pairs(zs, k + 1));
            assert(span_len(shell, zs, k + 1) == 2);
            assert(entries_in(shell, zs, k) == entries_in(shell, zs, k + 1));
            assert(entries_in(shell, zs, k + 1) == entries + entries_in(shell, zs, k + 3));
        },
        _ => {
            lemma_posix_fresh(shell, zs, k, entries, stamp);
        },
    }
}

/// The search for a closing line ends at `r`, where no line before `r`
/// closes a block and the one at `r` does, or the lines end.
pub proof fn lemma_next_close_is(ls: Seq<Seq<char>>, from: int, r: int)
    requires
        0 <= from <= r <= ls.len(),
        forall|k: int| from <= k < r ==> !zsh::closes_block(#[trigger] ls[k]),
        r < ls.len() ==> zsh::closes_block(ls[r]),
    ensures
        zsh::next_close(ls, from) == r,
{
    zsh::lemma_next_close(ls, from);
    let f = zsh::next_close(ls, from);
    if f < r {
        assert(!zsh::closes_block(ls[f]));
    }
}

/// In zsh's syntax the line written for a directory inside a block names
/// that directory and does not close the block.
pub proof fn lemma_zsh_item_line(entry: Seq<char>)
    requires
        zsh_writable(entry),
    ensures
        zsh::item(zsh::item_line(entry)) == seq![entry],
        !zsh::closes_block(zsh::item_line(entry)),
{
    reveal_strlit("  \"");
    reveal_strlit("\"");
    let line = zsh::item_line(entry);
    let head = seq![' ', ' '];
    let quote = seq!['"'];
    let core = quote + entry + quote;
    assert(line =~= head + core + Seq::<char>::empty());
    assert(core[0] == '"');
    assert(core.last() == '"');
    lemma_trimmed_core(head, core, Seq::<char>::empty(), CharClass::Space);
    assert(trimmed(line) == core);
    lemma_trimmed_core(quote, entry, quote, CharClass::Wrap);
    assert(core.len() >= 3);
}

/// The lines that zsh's syntax writes inside a block name the directories
/// in order.
pub proof fn lemma_zsh_items(zs: Seq<Seq<char>>, base: int, entries: Seq<Seq<char>>, i: int)
    requires
        writable(ShellType::Zsh, entries),
        0 <= i <= entries.len(),
        0 <= base,
        base + entries.len() <= zs.len(),
        forall|j: int|
            0 <= j < entries.len() ==> #[trigger] zs[base + j] == zsh::item_line(entries[j]),
    ensures
        zsh::items(zs, base + i, base + entries.len()) == entries.skip(i),
    decreases entries.len() - i,
{
    if i < entries.len() {
        assert(zsh_writable(entries[i]));
        lemma_zsh_item_line(entries[i]);
        lemma_zsh_items(zs, base, entries, i + 1);
        assert(zs[base + i] == zsh::item_line(entries[i]));
        assert(entries.skip(i) =~= seq![entries[i]] + entries.skip(i + 1));
    } else {
        assert(entries.skip(i) =~= Seq::<Seq<char>>::empty());
    }
}

/// A line that begins with a character other than `p` and white space
/// neither holds an array nor opens a block.
pub proof fn lemma_zsh_not_array(line: Seq<char>)
    requires
        line.len() > 0,
        !is_space(line[0]),
        line[0] != 'p',
    ensures
        !zsh::is_array(line),
        !zsh::opens_block(line),
{
    reveal_strlit("path=(");
    reveal_strlit("path+=(");
    lemma_trim_end_len(line, CharClass::Space);
    let e = trim_end_len(line, CharClass::Space);
    if e == 0 {
        assert(in_class(CharClass::Space, line[0]));
    }
    let t = trimmed(line);
    assert(t == line.subrange(0, e));
    assert(t[0] == line[0]);
    if starts_with(t, "path=("@) {
        assert(t.subrange(0, 6)[0] == t[0]);
    }
    if starts_with(t, "path+=("@) {
        assert(t.subrange(0, 7)[0] == t[0]);
    }
}

/// In zsh's syntax neither the comment of a written statement nor the
/// export that follows the block is a statement about `PATH`.
pub proof fn lemma_zsh_quiet_lines(stamp: Seq<char>)
    requires
        is_stamp(stamp),
    ensures
        !zsh::is_array(stamp_line(stamp)),
        !zsh::opens_block(stamp_line(stamp)),
        !zsh::exports(stamp_line(stamp)),
        !zsh::is_array("export PATH"@),
        !zsh::opens_block("export PATH"@),
        !zsh::exports("export PATH"@),
{
    reveal_strlit("# Updated by pathmaster on ");
    reveal_strlit("export PATH=");
    reveal_strlit("export PATH");
    let line = stamp_line(stamp);
    assert(line[0] == '#');
    lemma_zsh_not_array(line);
    lemma_zsh_not_array("export PATH"@);
    lemma_stamp_line_lacks(stamp, 'P');
    lemma_absent_char(line, "export PATH="@, 7);
    lemma_absent_char("export PATH"@, "export PATH="@, 11);
}

/// In zsh's syntax the written opening of a block opens a block and is no
/// array by itself; the written closing closes a block.
pub proof fn lemma_zsh_brackets()
    ensures
        !zsh::is_array("path+=("@),
        zsh::opens_block("path+=("@),
        zsh::closes_block(seq![')']),
{
    reveal_strlit("path=(");
    reveal_strlit("path+=(");
    let line = "path+=("@;
    lemma_trimmed_same(line, CharClass::Space);
    assert(trimmed(line) == line);
    if starts_with(line, "path=("@) {
        assert(line.subrange(0, 6)[4] == line[4]);
    }
    assert(line.subrange(0, 7) =~= line);
    assert(starts_with(line, "path+=("@));
    assert(index_of(line, ')', 7) == 7);
    lemma_trimmed_same(seq![')'], CharClass::Space);
}

/// Where the lines that zsh's syntax writes stand in a text from line `k`
/// on, one statement begins there and spans the block; behind the block no
/// statement begins within those lines. The directories read from there on
/// are those written, and what follows them.
pub proof fn lemma_zsh_fresh(zs: Seq<Seq<char>>, k: int, entries: Seq<Seq<char>>, stamp: Seq<char>)
    requires
        writable(ShellType::Zsh, entries),
        is_stamp(stamp),
        0 <= k,
        k + zsh::block(entries, stamp).len() <= zs.len(),
        zs.subrange(k, k + zsh::block(entries, stamp).len()) == zsh::block(entries, stamp),
    ensures
        starts_at(ShellType::Zsh, zs, k),
        span_len(ShellType::Zsh, zs, k) == entries.len() + 2,
        !starts_at(ShellType::Zsh, zs, k + entries.len() + 2),
        !starts_at(ShellType::Zsh, zs, k + entries.len() + 3),
        zs[k + entries.len() + 2] == "export PATH"@,
        zs[k + entries.len() + 3] == stamp_line(stamp),
        entries_in(ShellType::Zsh, zs, k) == entries + entries_in(
            ShellType::Zsh,
            zs,
            k + zsh::block(entries, stamp).len(),
        ),
{
    let shell = ShellType::Zsh;
    let fresh = zsh::block(entries, stamp);
    let n = entries.len() as int;
    let part = zs.subrange(k, k + fresh.len());
    assert(fresh.len() == n + 4);
    assert forall|j: int| 0 <= j < fresh.len() implies #[trigger] zs[k + j] == fresh[j] by {
        assert(part[j] == zs[k + j]);
    }
    lemma_zsh_brackets();
    lemma_zsh_quiet_lines(stamp);
    assert(zs[k + 0] == fresh[0]);
    assert(zs[k] == "path+=("@);
    assert forall|j: int| 0 <= j < n implies #[trigger] zs[k + 1 + j] == zsh::item_line(
        entries[j],
    ) by {
        assert(zs[k + (1 + j)] == fresh[1 + j]);
    }
    assert(zs[k + (n + 1)] == fresh[n + 1]);
    assert(zs[k + n + 1] == seq![')']);
    assert forall|q: int| k + 1 <= q < k + n + 1 implies !zsh::closes_block(#[trigger] zs[q]) by {
        let j = q - k - 1;
        assert(zs[k + 1 + j] == zsh::item_line(entries[j]));
        assert(zsh_writable(entries[j]));
        lemma_zsh_item_line(entries[j]);
    }
    lemma_next_close_is(zs, k + 1, k + n + 1);
    assert(zsh::span_len(zs, k) == n + 2);
    assert(starts_at(shell, zs, k));
    lemma_zsh_items(zs, k + 1, entries, 0);
    assert(entries.skip(0) =~= entries);
    assert(span_entries(shell, zs, k) == entries);
    assert(zs[k + (n + 2)] == fresh[n + 2]);
    assert(zs[k + (n + 3)] == fresh[n + 3]);
    assert(zs[k + n + 2] == "export PATH"@);
    assert(zs[k + n + 3] == stamp_line(stamp));
    assert(zsh::span_len(zs, k + n + 2) == 0);
    assert(zsh::span_len(zs, k + n + 3) == 0);
    assert(entries_in(shell, zs, k + n + 2) == entries_in(shell, zs, k + n + 3));
    assert(entries_in(shell, zs, k + n + 3) == entries_in(shell, zs, k + n + 4));
}

/// Where the lines that a syntax writes stand in a text from line `k` on,
/// the directories read from there on are those written, and what follows
/// them.
pub proof fn lemma_fresh(
    shell: ShellType,
    zs: Seq<Seq<char>>,
    k: int,
    entries: Seq<Seq<char>>,
    stamp: Seq<char>,
)
    requires
        writable(shell, entries),
        is_stamp(stamp),
        0 <= k,
        k + block(shell, entries, stamp).len() <= zs.len(),
        zs.subrange(k, k + block(shell, entries, stamp).len()) == block(shell, entries, stamp),
    ensures
        entries_in(shell, zs, k) == entries + entries_in(
            shell,
            zs,
            k + block(shell, entries, stamp).len(),
        ),
{
    if shell == ShellType::Zsh {
        lemma_zsh_fresh(zs, k, entries, stamp);
    } else {
        lemma_fresh_lines(shell, zs, k, entries, stamp);
    }
}

/// The line of the text from which the `j`-th of the lines kept from
/// `pos` on is taken.
pub open spec fn origin(shell: ShellType, ls: Seq<Seq<char>>, pos: int, j: int) -> int
    decreases ls.len() - pos,
{
    if pos < 0 || pos >= ls.len() {
        ls.len() as int
    } else if starts_at(shell, ls, pos) {
        origin(shell, ls, pos + span_len(shell, ls, pos), j)
    } else if j <= 0 {
        pos
    } else {
        origin(shell, ls, pos + 1, j - 1)
    }
}

/// A kept line is the line at its origin; no statement begins there, and
/// the lines kept behind it are those kept from behind its origin on.
pub proof fn lemma_origin(shell: ShellType, ls: Seq<Seq<char>>, pos: int, j: int)
    requires
        0 <= pos <= ls.len(),
        0 <= j < survivors(shell, ls, pos).len(),
    ensures
        ({
            let o = origin(shell, ls, pos, j);
            &&& pos <= o < ls.len()
            &&& survivors(shell, ls, pos)[j] == ls[o]
            &&& !starts_at(shell, ls, o)
            &&& survivors(shell, ls, pos).skip(j + 1) == survivors(shell, ls, o + 1)
        }),
    decreases ls.len() - pos,
{
    let kept = survivors(shell, ls, pos);
    if pos < ls.len() {
        if starts_at(shell, ls, pos) {
            lemma_origin(shell, ls, pos + span_len(shell, ls, pos), j);
        } else if j == 0 {
            assert(kept.skip(1) =~= survivors(shell, ls, pos + 1));
        } else {
            let rest = survivors(shell, ls, pos + 1);
            assert(kept =~= seq![ls[pos]] + rest);
            lemma_origin(shell, ls, pos + 1, j - 1);
            assert(kept[j] == rest[j - 1]);
            assert(kept.skip(j + 1) =~= rest.skip(j));
        }
    }
}

/// The anchor is at `r`, where no statement begins before `r` and one
/// begins at `r`, or the lines end.
pub proof fn lemma_anchor_is(shell: ShellType, ls: Seq<Seq<char>>, from: int, r: int)
    requires
        0 <= from <= r <= ls.len(),
        forall|p: int| from <= p < r ==> !starts_at(shell, ls, p),
        r < ls.len() ==> starts_at(shell, ls, r),
    ensures
        anchor(shell, ls, from) == r,
    decreases r - from,
{
    if from < r {
        assert(!starts_at(shell, ls, from));
        lemma_anchor_is(shell, ls, from + 1, r);
    }
}

/// A statement has no more lines than are left.
pub proof fn lemma_span_len_bounds(shell: ShellType, ls: Seq<Seq<char>>, pos: int)
    requires
        0 <= pos < ls.len(),
    ensures
        0 <= span_len(shell, ls, pos) <= ls.len() - pos,
{
    if shell == ShellType::Zsh {
        zsh::lemma_next_close(ls, pos + 1);
    }
}

/// Whether no block is left open before the first statement about `PATH`:
/// in zsh's syntax, no line before it begins with `path+=(` and lacks the
/// closing bracket. A block that is left open there would take the written
/// statement for its own end.
pub open spec fn settled(shell: ShellType, ls: Seq<Seq<char>>) -> bool {
    shell == ShellType::Zsh ==> forall|p: int|
        0 <= p < anchor(shell, ls, 0) ==> !zsh::opens_block(#[trigger] ls[p])
}

/// In a rewritten text no statement begins before the freshly written
/// lines or behind them, where no block was left open before the first
/// statement of the text as it was.
pub proof fn lemma_rewritten_quiet(
    shell: ShellType,
    content: Seq<char>,
    entries: Seq<Seq<char>>,
    stamp: Seq<char>,
)
    requires
        writable(shell, entries),
        is_stamp(stamp),
        settled(shell, base_lines(content)),
    ensures
        ({
            let ls = base_lines(content);
            let a = anchor(shell, ls, 0);
            let fresh = block(shell, entries, stamp);
            let zs = rewritten_lines(shell, ls, fresh);
            &&& lines_of(rewritten(shell, content, entries, stamp)) == zs
            &&& 0 <= a <= ls.len()
            &&& zs.len() >= a + fresh.len()
            &&& zs.subrange(a, a + fresh.len()) == fresh
            &&& forall|p: int| 0 <= p < a ==> !starts_at(shell, zs, p)
            &&& forall|p: int| a + fresh.len() <= p < zs.len() ==> !starts_at(shell, zs, p)
            &&& forall|p: int| 0 <= p < a ==> zs[p] == ls[p]
        }),
{
    let ls = base_lines(content);
    let a = anchor(shell, ls, 0);
    let fresh = block(shell, entries, stamp);
    let m = fresh.len() as int;
    let kept = survivors(shell, ls, a);
    let zs = rewritten_lines(shell, ls, fresh);
    lemma_writable_lacks_newline(shell, entries, stamp);
    lemma_rewritten_lines_lack_newline(shell, content, entries, stamp);
    lemma_lines_unlines(zs, ends_with_newline(content));
    lemma_anchor(shell, ls, 0);
    assert(zs.len() == a + m + kept.len());
    assert(zs.subrange(a, a + m) =~= fresh);
    assert forall|p: int| 0 <= p < a implies !starts_at(shell, zs, p) && zs[p] == ls[p] by {
        assert(zs[p] == ls[p]);
        assert(!starts_at(shell, ls, p));
        lemma_span_len_bounds(shell, ls, p);
        if shell == ShellType::Zsh {
            assert(!zsh::opens_block(ls[p]));
        }
    }
    assert forall|p: int| a + m <= p < zs.len() implies !starts_at(shell, zs, p) by {
        let j = p - a - m;
        lemma_origin(shell, ls, a, j);
        let o = origin(shell, ls, a, j);
        assert(zs[p] == kept[j]);
        lemma_span_len_bounds(shell, ls, o);
        if shell == ShellType::Zsh && zsh::opens_block(ls[o]) {
            zsh::lemma_next_close(ls, o + 1);
            let open = |l: Seq<char>| !zsh::closes_block(l);
            assert forall|i: int| o + 1 <= i < ls.len() implies open(#[trigger] ls[i]) by {}
            lemma_survivors_keep(shell, ls, o + 1, open);
            let behind = survivors(shell, ls, o + 1);
            assert forall|q: int| p + 1 <= q < zs.len() implies !zsh::closes_block(
                #[trigger] zs[q],
            ) by {
                assert(zs[q] == kept[q - a - m]);
                assert(kept.skip(j + 1)[q - p - 1] == kept[q - a - m]);
                assert(open(behind[q - p - 1]));
            }
            lemma_next_close_is(zs, p + 1, zs.len() as int);
        }
    }
}

/// Reading what was written gives back what was to be written: the
/// directories that the statements of a freshly written text name are the
/// directories it was written for, in their order. This holds for every
/// list of directories that the syntax can write down.
pub proof fn lemma_written_reads_back(shell: ShellType, entries: Seq<Seq<char>>, stamp: Seq<char>)
    requires
        writable(shell, entries),
        is_stamp(stamp),
    ensures
        extracted(shell, rendered(shell, entries, stamp)) == entries,
{
    let fresh = block(shell, entries, stamp);
    lemma_writable_lacks_newline(shell, entries, stamp);
    lemma_block_lacks_newline(shell, entries, stamp);
    lemma_block_ends(shell, entries, stamp);
    assert(unlines(fresh, false) == rendered(shell, entries, stamp));
    lemma_lines_unlines(fresh, false);
    assert(fresh.subrange(0, fresh.len() as int) =~= fresh);
    lemma_fresh(shell, fresh, 0, entries, stamp);
    assert(entries + Seq::<Seq<char>>::empty() =~= entries);
}

/// The directories that the statements of a rewritten text name are the
/// directories it was rewritten for, in their order: no directory of an
/// older statement is left, and none is named twice over. This holds for
/// every text in which no block is left open before the first statement,
/// and for every list of directories that the syntax can write down. The
/// rewritten text is again such a text.
pub proof fn lemma_rewritten_reads_back(
    shell: ShellType,
    content: Seq<char>,
    entries: Seq<Seq<char>>,
    stamp: Seq<char>,
)
    requires
        writable(shell, entries),
        is_stamp(stamp),
        settled(shell, base_lines(content)),
    ensures
        extracted(shell, rewritten(shell, content, entries, stamp)) == entries,
        settled(shell, base_lines(rewritten(shell, content, entries, stamp))),
{
    let ls = base_lines(content);
    let a = anchor(shell, ls, 0);
    let fresh = block(shell, entries, stamp);
    let m = fresh.len() as int;
    let zs = rewritten_lines(shell, ls, fresh);
    lemma_rewritten_quiet(shell, content, entries, stamp);
    lemma_entries_skip(shell, zs, 0, a);
    lemma_fresh(shell, zs, a, entries, stamp);
    lemma_entries_skip(shell, zs, a + m, zs.len() as int);
    assert(entries + Seq::<Seq<char>>::empty() =~= entries);
    if shell == ShellType::Zsh {
        lemma_zsh_fresh(zs, a, entries, stamp);
        lemma_anchor_is(shell, zs, 0, a);
        assert forall|p: int| 0 <= p < a implies !zsh::opens_block(#[trigger] zs[p]) by {
            assert(zs[p] == ls[p]);
        }
    }
}

/// Rewriting a text a second time for the same directories changes nothing
/// in what it names: after the first rewrite and after the second, the
/// directories that the statements of the text name are those it was
/// rewritten for, once each and in their order. This holds for every text
/// in which no block is left open before the first statement, and for every
/// list of directories that the syntax can write down.
pub proof fn lemma_rewrite_twice_reads_back(
    shell: ShellType,
    content: Seq<char>,
    entries: Seq<Seq<char>>,
    first: Seq<char>,
    second: Seq<char>,
)
    requires
        writable(shell, entries),
        is_stamp(first),
        is_stamp(second),
        settled(shell, base_lines(content)),
    ensures
        ({
            let once = rewritten(shell, content, entries, first);
            let twice = rewritten(shell, once, entries, second);
            &&& extracted(shell, once) == entries
            &&& extracted(shell, twice) == entries
        }),
{
    lemma_rewritten_reads_back(shell, content, entries, first);
    lemma_rewritten_reads_back(
        shell,
        rewritten(shell, content, entries, first),
        entries,
        second,
    );
}

/// However many statements about `PATH` a text held, rewritten in bash's
/// syntax it holds one: the written assignment, on the line behind the
/// comment that stands where the first old statement stood. This holds for
/// every list of directories that the syntax can write down.
pub proof fn lemma_posix_rewrite_leaves_one(
    shell: ShellType,
    content: Seq<char>,
    entries: Seq<Seq<char>>,
    stamp: Seq<char>,
)
    requires
        is_posix(shell),
        writable(shell, entries),
        is_stamp(stamp),
    ensures
        ({
            let found = located(shell, rewritten(shell, content, entries, stamp));
            &&& found.len() == 1
            &&& found[0].line == anchor(shell, base_lines(content), 0) + 2
            &&& found[0].text == bash::export_line(entries)
            &&& statements(shell, rewritten(shell, content, entries, stamp)) == found
        }),
{
    reveal_strlit("\"");
    let ls = base_lines(content);
    let a = anchor(shell, ls, 0);
    let fresh = block(shell, entries, stamp);
    let zs = rewritten_lines(shell, ls, fresh);
    let out = rewritten(shell, content, entries, stamp);
    let shown = shown_lines(out);
    let line = bash::export_line(entries);
    lemma_rewritten_quiet(shell, content, entries, stamp);
    lemma_declarations_skip(shell, zs, shown, 0, a);
    lemma_posix_fresh(shell, zs, a, entries, stamp);
    lemma_declarations_skip(shell, zs, shown, a + 2, zs.len() as int);
    assert(declarations(shell, zs, shown, a) == declarations(shell, zs, shown, a + 1));
    assert(zs[a + 1] == zs.subrange(a, a + 2)[1]);
    assert(zs[a + 1] == line);
    assert(line.last() == '"');
    assert(shown[a + 1] == line);
    assert(shown.subrange(a + 1, a + 2) =~= seq![line]);
    assert(join(seq![line], '\n') == line);
    let found = statements(shell, out);
    assert(found.len() == 1);
    assert(arranged(shell, found) =~= found);
}

/// However many statements about `PATH` a text held, rewritten in zsh's
/// syntax it holds one: the written block, where the first old statement
/// stood. This holds for every text in which no block is left open before
/// the first statement, and for every list of directories that the syntax
/// can write down.
pub proof fn lemma_zsh_rewrite_leaves_one(
    content: Seq<char>,
    entries: Seq<Seq<char>>,
    stamp: Seq<char>,
)
    requires
        writable(ShellType::Zsh, entries),
        is_stamp(stamp),
        settled(ShellType::Zsh, base_lines(content)),
    ensures
        ({
            let found = located(
                ShellType::Zsh,
                rewritten(ShellType::Zsh, content, entries, stamp),
            );
            &&& found.len() == 1
            &&& found[0].line == anchor(ShellType::Zsh, base_lines(content), 0) + 1
            &&& found[0].kind == ModificationType::ArrayModification
        }),
{
    let shell = ShellType::Zsh;
    let ls = base_lines(content);
    let a = anchor(shell, ls, 0);
    let fresh = block(shell, entries, stamp);
    let n = entries.len() as int;
    let zs = rewritten_lines(shell, ls, fresh);
    let out = rewritten(shell, content, entries, stamp);
    let shown = shown_lines(out);
    lemma_rewritten_quiet(shell, content, entries, stamp);
    lemma_declarations_skip(shell, zs, shown, 0, a);
    lemma_zsh_fresh(zs, a, entries, stamp);
    lemma_zsh_brackets();
    assert(zs[a] == zs.subrange(a, a + fresh.len())[0]);
    lemma_declarations_skip(shell, zs, shown, a + n + 2, zs.len() as int);
    let found = statements(shell, out);
    assert(found.len() == 1);
    assert(found[0].kind == ModificationType::ArrayModification);
    assert(found.skip(1) =~= Seq::<Declaration>::empty());
    assert(of_kind(found.skip(1), true) =~= Seq::<Declaration>::empty());
    assert(of_kind(found.skip(1), false) =~= Seq::<Declaration>::empty());
    assert(arranged(shell, found) =~= found);
}

/// Expansion leaves directories as they are where none of them begins
/// with a tilde or holds a dollar sign: what a handler reads is then what is
/// written in the text, and what it writes is what it was given.
pub proof fn lemma_expansion_of_literal(raw: Seq<Seq<char>>, out: Seq<Seq<char>>)
    requires
        expanded_from(raw, out),
        forall|i: int|
            0 <= i < raw.len() ==> !led_by_tilde(#[trigger] raw[i]) && !has_dollar(raw[i]),
    ensures
        out == raw,
{
    assert forall|i: int| 0 <= i < raw.len() implies out[i] == raw[i] by {
        assert(expands_to(raw[i], out[i]));
    }
    assert(out =~= raw);
}

/// Reading what a handler wrote gives back what it was given, up to
/// expansion: a handler writes the directories `entries` expanded, as
/// `written`, and what it reads from the text it wrote are the directories
/// `written`, expanded once more. Where none of `written` begins with a
/// tilde or holds a dollar sign, it reads them as they were written. This
/// holds for every list whose expanded form the syntax can write down.
pub proof fn lemma_round_trip_modulo_expansion(
    shell: ShellType,
    entries: Seq<Seq<char>>,
    written: Seq<Seq<char>>,
    stamp: Seq<char>,
    read: Seq<Seq<char>>,
)
    requires
        expanded_from(entries, written),
        writable(shell, written),
        is_stamp(stamp),
        expanded_from(extracted(shell, rendered(shell, written, stamp)), read),
    ensures
        expanded_from(written, read),
        read.len() == entries.len(),
        (forall|i: int|
            0 <= i < written.len() ==> !led_by_tilde(#[trigger] written[i]) && !has_dollar(
                written[i],
            )) ==> read == written,
{
    lemma_written_reads_back(shell, written, stamp);
    if forall|i: int|
        0 <= i < written.len() ==> !led_by_tilde(#[trigger] written[i]) && !has_dollar(written[i]) {
        lemma_expansion_of_literal(written, read);
    }
}

} // verus!
