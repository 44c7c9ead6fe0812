//! What holds of every rewrite: which lines are kept, where the new
//! statement stands, and that reading a rewritten file gives back the
//! directories that were written.

use vstd::prelude::*;
use crate::text::{ends_with_newline, join, lines_of, shown_lines};
use crate::text_facts::{
    all_lack, lacks, lemma_join_concat, lemma_join_lacks, lemma_last_piece, lemma_lines_framed,
    lemma_lines_lack_newline, lemma_lines_within_plain, lemma_pieces_lack,
    lemma_unlines_lines, lines_within,
};
use crate::utils::shell::handlers::{bash, fish, stamp_line, tcsh, zsh};
use crate::utils::shell::rewrite::{
    anchor, arranged, base_lines, block, declarations, located, rendered, rewritten,
    rewritten_lines, span_len, starts_at, statements, survivors,
};
use crate::utils::shell::types::{Declaration, ShellType};

verus! {

/// The anchor lies within the lines; no statement begins before it, and one
/// begins at it unless it is the end.
pub proof fn lemma_anchor(shell: ShellType, ls: Seq<Seq<char>>, pos: int)
    requires
        0 <= pos <= ls.len(),
    ensures
        pos <= anchor(shell, ls, pos) <= ls.len(),
        forall|p: int| pos <= p < anchor(shell, ls, pos) ==> !starts_at(shell, ls, p),
        anchor(shell, ls, pos) < ls.len() ==> starts_at(shell, ls, anchor(shell, ls, pos)),
    decreases ls.len() - pos,
{
    if pos < ls.len() && !starts_at(shell, ls, pos) {
        lemma_anchor(shell, ls, pos + 1);
    }
}

/// Up to the anchor every line is kept.
pub proof fn lemma_survivors_to_anchor(shell: ShellType, ls: Seq<Seq<char>>, pos: int)
    requires
        0 <= pos <= ls.len(),
    ensures
        survivors(shell, ls, pos) == ls.subrange(pos, anchor(shell, ls, pos)) + survivors(
            shell,
            ls,
            anchor(shell, ls, pos),
        ),
    decreases ls.len() - pos,
{
    lemma_anchor(shell, ls, pos);
    if pos < ls.len() && !starts_at(shell, ls, pos) {
        lemma_survivors_to_anchor(shell, ls, pos + 1);
        let a = anchor(shell, ls, pos);
        assert(seq![ls[pos]] + ls.subrange(pos + 1, a) =~= ls.subrange(pos, a));
        assert(survivors(shell, ls, pos) =~= ls.subrange(pos, a) + survivors(shell, ls, a));
    } else {
        assert(ls.subrange(pos, pos) + survivors(shell, ls, pos) =~= survivors(shell, ls, pos));
    }
}

/// What holds of every line from `pos` on holds of every line kept from
/// there on.
pub proof fn lemma_survivors_keep(
    shell: ShellType,
    ls: Seq<Seq<char>>,
    pos: int,
    holds: spec_fn(Seq<char>) -> bool,
)
    requires
        0 <= pos <= ls.len(),
        forall|i: int| pos <= i < ls.len() ==> holds(#[trigger] ls[i]),
    ensures
        forall|j: int|
            0 <= j < survivors(shell, ls, pos).len() ==> holds(
                #[trigger] survivors(shell, ls, pos)[j],
            ),
    decreases ls.len() - pos,
{
    if pos < ls.len() {
        let kept = survivors(shell, ls, pos);
        if starts_at(shell, ls, pos) {
            let rest = survivors(shell, ls, pos + span_len(shell, ls, pos));
            lemma_survivors_keep(shell, ls, pos + span_len(shell, ls, pos), holds);
            assert(kept == rest);
            assert forall|j: int| 0 <= j < kept.len() implies holds(#[trigger] kept[j]) by {
                assert(kept[j] == rest[j]);
            }
        } else {
            lemma_survivors_keep(shell, ls, pos + 1, holds);
            let rest = survivors(shell, ls, pos + 1);
            assert forall|j: int| 0 <= j < kept.len() implies holds(#[trigger] kept[j]) by {
                if j == 0 {
                    assert(ls[pos] == kept[0]);
                } else {
                    assert(kept[j] == rest[j - 1]);
                }
            }
        }
    }
}

/// The comment of a written statement holds no line break.
pub proof fn lemma_stamp_line_lacks_newline(stamp: Seq<char>)
    requires
        lacks(stamp, '\n'),
    ensures
        lacks(stamp_line(stamp), '\n'),
{
    reveal_strlit("# Updated by pathmaster on ");
    let head = "# Updated by pathmaster on "@;
    assert forall|i: int| 0 <= i < stamp_line(stamp).len() implies #[trigger] stamp_line(stamp)[i]
        != '\n' by {
        if i >= head.len() {
            assert(stamp_line(stamp)[i] == stamp[i - head.len()]);
        }
    }
}

/// The lines that are written hold no line break, where the directories and
/// the time hold none.
pub proof fn lemma_block_lacks_newline(shell: ShellType, entries: Seq<Seq<char>>, stamp: Seq<char>)
    requires
        all_lack(entries, '\n'),
        lacks(stamp, '\n'),
    ensures
        all_lack(block(shell, entries, stamp), '\n'),
        block(shell, entries, stamp).len() >= 2,
{
    lemma_stamp_line_lacks_newline(stamp);
    let b = block(shell, entries, stamp);
    match shell {
        ShellType::Zsh => {
            reveal_strlit("path+=(");
            reveal_strlit("  \"");
            reveal_strlit("\"");
            reveal_strlit("export PATH");
            assert forall|i: int| 0 <= i < b.len() implies lacks(#[trigger] b[i], '\n') by {
                if 1 <= i <= entries.len() {
                    assert(b[i] == zsh::item_line(entries[i - 1]));
                    assert(lacks(entries[i - 1], '\n'));
                }
            }
        },
        ShellType::Fish => {
            reveal_strlit("set -e PATH");
            reveal_strlit("fish_add_path ");
            assert forall|i: int| 0 <= i < b.len() implies lacks(#[trigger] b[i], '\n') by {
                if 2 <= i {
                    assert(b[i] == fish::add_line(entries[i - 2]));
                    assert(lacks(entries[i - 2], '\n'));
                }
            }
        },
        ShellType::Tcsh => {
            reveal_strlit("set path = (");
            reveal_strlit(")");
            reveal_strlit("setenv PATH ");
            lemma_join_lacks(entries, ' ', '\n');
            lemma_join_lacks(entries, ':', '\n');
            assert(lacks(tcsh::array_line(entries), '\n'));
            assert(lacks(tcsh::variable_line(entries), '\n'));
        },
        _ => {
            reveal_strlit("export PATH=\"");
            reveal_strlit("\"");
            lemma_join_lacks(entries, ':', '\n');
            assert(lacks(bash::export_line(entries), '\n'));
        },
    }
}

/// The lines of a rewritten text hold no line break, where the directories
/// and the time hold none.
pub proof fn lemma_rewritten_lines_lack_newline(
    shell: ShellType,
    content: Seq<char>,
    entries: Seq<Seq<char>>,
    stamp: Seq<char>,
)
    requires
        all_lack(entries, '\n'),
        lacks(stamp, '\n'),
    ensures
        all_lack(
            rewritten_lines(shell, base_lines(content), block(shell, entries, stamp)),
            '\n',
        ),
{
    let ls = base_lines(content);
    let fresh = block(shell, entries, stamp);
    let a = anchor(shell, ls, 0);
    let kept = survivors(shell, ls, a);
    let out = rewritten_lines(shell, ls, fresh);
    lemma_lines_lack_newline(content);
    assert(all_lack(ls, '\n'));
    lemma_block_lacks_newline(shell, entries, stamp);
    lemma_anchor(shell, ls, 0);
    lemma_survivors_keep(shell, ls, a, |l: Seq<char>| lacks(l, '\n'));
    assert forall|i: int| 0 <= i < out.len() implies lacks(#[trigger] out[i], '\n') by {
        if i < a {
            assert(out[i] == ls[i]);
        } else if i < a + fresh.len() {
            assert(out[i] == fresh[i - a]);
        } else {
            assert(out[i] == kept[i - a - fresh.len()]);
        }
    }
}

/// Every line of a text that belongs to no statement about `PATH` stands
/// in the rewritten text, unchanged and in its order, whatever the
/// directories and the time are: the lines of the rewritten text are the
/// lines that stood before the first statement, then the lines that what
/// was written shows, and then the other lines that belong to no
/// statement. (The empty text counts as one empty line.)
pub proof fn lemma_rewrite_keeps_lines(
    shell: ShellType,
    content: Seq<char>,
    entries: Seq<Seq<char>>,
    stamp: Seq<char>,
)
    ensures
        ({
            let ls = base_lines(content);
            let kept = survivors(shell, ls, 0);
            let a = anchor(shell, ls, 0);
            let written = lines_within(
                block(shell, entries, stamp),
                !ends_with_newline(content) && kept.skip(a).len() == 0,
            );
            &&& 0 <= a <= kept.len()
            &&& kept.take(a) == ls.take(a)
            &&& written.len() > 0
            &&& lines_of(rewritten(shell, content, entries, stamp)) == kept.take(a) + written
                + kept.skip(a)
        }),
{
    let ls = base_lines(content);
    let kept = survivors(shell, ls, 0);
    let a = anchor(shell, ls, 0);
    let fresh = block(shell, entries, stamp);
    let before = ls.take(a);
    let behind = survivors(shell, ls, a);
    lemma_anchor(shell, ls, 0);
    lemma_survivors_to_anchor(shell, ls, 0);
    lemma_lines_lack_newline(content);
    assert(all_lack(ls, '\n'));
    lemma_survivors_keep(shell, ls, a, |l: Seq<char>| lacks(l, '\n'));
    assert(all_lack(before, '\n')) by {
        assert forall|i: int| 0 <= i < before.len() implies lacks(#[trigger] before[i], '\n') by {
            assert(before[i] == ls[i]);
        }
    }
    assert(all_lack(behind, '\n'));
    lemma_block_ends(shell, entries, stamp);
    lemma_lines_framed(before, fresh, behind, ends_with_newline(content));
    assert(kept.take(a) =~= before);
    assert(kept.skip(a) =~= behind);
    assert(rewritten_lines(shell, ls, fresh) == before + fresh + behind);
}

/// Where neither the directories nor the time hold a line break, what
/// stands in a rewritten text between the lines that were kept are the
/// freshly written lines themselves: without them, the lines of the
/// rewritten text are the lines of the text that belong to no statement
/// about `PATH`, and no others.
pub proof fn lemma_rewrite_keeps_other_lines(
    shell: ShellType,
    content: Seq<char>,
    entries: Seq<Seq<char>>,
    stamp: Seq<char>,
)
    requires
        all_lack(entries, '\n'),
        lacks(stamp, '\n'),
    ensures
        ({
            let ls = base_lines(content);
            let kept = survivors(shell, ls, 0);
            let a = anchor(shell, ls, 0);
            let fresh = block(shell, entries, stamp);
            &&& 0 <= a <= kept.len()
            &&& lines_of(rewritten(shell, content, entries, stamp)) == kept.take(a) + fresh
                + kept.skip(a)
        }),
{
    let ls = base_lines(content);
    let kept = survivors(shell, ls, 0);
    let a = anchor(shell, ls, 0);
    lemma_rewrite_keeps_lines(shell, content, entries, stamp);
    lemma_block_lacks_newline(shell, entries, stamp);
    lemma_lines_within_plain(
        block(shell, entries, stamp),
        !ends_with_newline(content) && kept.skip(a).len() == 0,
    );
}

/// The new statement stands where the first old one stood, whatever the
/// directories and the time are: the lines before it are the lines that
/// stood before the first statement about `PATH`, and its first line has
/// the number that statement's first line had. Where the text held no
/// statement, all its lines stand before the new one.
pub proof fn lemma_rewrite_keeps_place(
    shell: ShellType,
    content: Seq<char>,
    entries: Seq<Seq<char>>,
    stamp: Seq<char>,
)
    ensures
        ({
            let ls = base_lines(content);
            let found = statements(shell, content);
            let a = anchor(shell, ls, 0);
            let fresh = block(shell, entries, stamp);
            let out = lines_of(rewritten(shell, content, entries, stamp));
            &&& 0 <= a <= ls.len()
            &&& out.len() > a
            &&& out.take(a) == ls.take(a)
            &&& found.len() == 0 <==> a == ls.len()
            &&& found.len() > 0 ==> found[0].line == a + 1
            &&& all_lack(entries, '\n') && lacks(stamp, '\n') ==> out.len() >= a + fresh.len()
                && out.subrange(a, a + fresh.len()) == fresh
        }),
{
    let ls = base_lines(content);
    let a = anchor(shell, ls, 0);
    let fresh = block(shell, entries, stamp);
    let out = lines_of(rewritten(shell, content, entries, stamp));
    lemma_anchor(shell, ls, 0);
    lemma_rewrite_keeps_lines(shell, content, entries, stamp);
    assert(out.take(a) =~= ls.take(a));
    lemma_statements_from_anchor(shell, content);
    if all_lack(entries, '\n') && lacks(stamp, '\n') {
        lemma_rewrite_keeps_other_lines(shell, content, entries, stamp);
        assert(out.subrange(a, a + fresh.len()) =~= fresh);
    }
}

/// The statements from a line on are those from the anchor on, and the
/// first of them begins at the anchor.
pub proof fn lemma_declarations_from_anchor(
    shell: ShellType,
    ls: Seq<Seq<char>>,
    shown: Seq<Seq<char>>,
    pos: int,
)
    requires
        0 <= pos <= ls.len(),
    ensures
        declarations(shell, ls, shown, pos) == declarations(
            shell,
            ls,
            shown,
            anchor(shell, ls, pos),
        ),
        declarations(shell, ls, shown, pos).len() == 0 <==> anchor(shell, ls, pos) == ls.len(),
        declarations(shell, ls, shown, pos).len() > 0 ==> declarations(
            shell,
            ls,
            shown,
            pos,
        )[0].line == anchor(shell, ls, pos) + 1,
    decreases ls.len() - pos,
{
    lemma_anchor(shell, ls, pos);
    if pos < ls.len() && !starts_at(shell, ls, pos) {
        lemma_declarations_from_anchor(shell, ls, shown, pos + 1);
    }
}

/// A text holds no statement exactly where the rewrite finds no line to
/// put its own in place of, and its first statement begins at the line
/// where the rewrite puts its own.
pub proof fn lemma_statements_from_anchor(shell: ShellType, content: Seq<char>)
    ensures
        statements(shell, content).len() == 0 <==> anchor(shell, base_lines(content), 0)
            == base_lines(content).len(),
        statements(shell, content).len() > 0 ==> statements(shell, content)[0].line == anchor(
            shell,
            base_lines(content),
            0,
        ) + 1,
{
    let ls = base_lines(content);
    if content.len() == 0 {
        lemma_empty_line_quiet(shell);
        assert(anchor(shell, ls, 1) == 1);
        lemma_pieces_lack(content, '\n', 0);
        assert(lines_of(content).len() == 0);
    } else {
        lemma_declarations_from_anchor(shell, ls, shown_lines(content), 0);
    }
}

/// The statements in the order in which they are found are as many as
/// there are.
pub proof fn lemma_arranged_len(shell: ShellType, found: Seq<Declaration>)
    ensures
        arranged(shell, found).len() == found.len(),
    decreases found.len(),
{
    if found.len() > 0 {
        lemma_arranged_len(shell, found.skip(1));
    }
}

/// A rewritten text ends with a line break where the text did before.
pub proof fn lemma_rewrite_keeps_final_newline(
    shell: ShellType,
    content: Seq<char>,
    entries: Seq<Seq<char>>,
    stamp: Seq<char>,
)
    ensures
        ends_with_newline(content) ==> ends_with_newline(
            rewritten(shell, content, entries, stamp),
        ),
{
    let ls = base_lines(content);
    let fresh = block(shell, entries, stamp);
    let lines = rewritten_lines(shell, ls, fresh);
    lemma_anchor(shell, ls, 0);
    assert(fresh.len() >= 1) by {
        match shell {
            ShellType::Zsh => {},
            ShellType::Fish => {},
            ShellType::Tcsh => {},
            _ => {},
        }
    }
    assert(lines.len() > 0);
}

/// What is written has at least two lines, and its last line is not
/// empty.
pub proof fn lemma_block_ends(shell: ShellType, entries: Seq<Seq<char>>, stamp: Seq<char>)
    ensures
        block(shell, entries, stamp).len() >= 2,
        block(shell, entries, stamp).last().len() > 0,
{
    let fresh = block(shell, entries, stamp);
    reveal_strlit("# Updated by pathmaster on ");
    reveal_strlit("export PATH=\"");
    reveal_strlit("set -e PATH");
    reveal_strlit("fish_add_path ");
    reveal_strlit("setenv PATH ");
    match shell {
        ShellType::Zsh => {
            assert(fresh.last() == stamp_line(stamp));
        },
        ShellType::Fish => {
            if entries.len() > 0 {
                assert(fresh.last() == fish::add_line(entries.last()));
            }
        },
        ShellType::Tcsh => {},
        _ => {},
    }
}

/// The empty line is no statement about `PATH` in any syntax.
pub proof fn lemma_empty_line_quiet(shell: ShellType)
    ensures
        !starts_at(shell, seq![Seq::<char>::empty()], 0),
{
    let e = Seq::<char>::empty();
    let ls = seq![e];
    reveal_strlit("PATH=$PATH:");
    reveal_strlit("fish_add_path");
    reveal_strlit("set -gx PATH");
    reveal_strlit("export PATH=");
    reveal_strlit("path=(");
    reveal_strlit("path+=(");
    assert(ls[0] == e);
    assert(crate::text::trimmed(e) =~= e);
    assert(span_len(shell, ls, 0) == 0);
}

/// What a text without any statement about `PATH` is rewritten to: the
/// text, a line break where it did not end with one, and the freshly
/// written statement, closed by a line break where the text was. This holds
/// for every text and every list of directories.
pub proof fn lemma_rewrite_appends(
    shell: ShellType,
    content: Seq<char>,
    entries: Seq<Seq<char>>,
    stamp: Seq<char>,
)
    requires
        located(shell, content).len() == 0,
    ensures
        rewritten(shell, content, entries, stamp) == if ends_with_newline(content) {
            content + rendered(shell, entries, stamp) + seq!['\n']
        } else {
            content + seq!['\n'] + rendered(shell, entries, stamp)
        },
{
    let ls = base_lines(content);
    let fresh = block(shell, entries, stamp);
    let a = anchor(shell, ls, 0);
    let out = rewritten(shell, content, entries, stamp);
    lemma_arranged_len(shell, statements(shell, content));
    lemma_statements_from_anchor(shell, content);
    if content.len() == 0 {
        assert(join(ls, '\n') =~= content);
    } else {
        lemma_unlines_lines(content);
    }
    assert(a == ls.len());
    assert(rewritten_lines(shell, ls, fresh) =~= ls + fresh);
    lemma_block_ends(shell, entries, stamp);
    assert((ls + fresh).last() == fresh.last());
    if ls.len() == 0 {
        // a text that is not empty has a line
        lemma_pieces_lack(content, '\n', 0);
        lemma_last_piece(content, '\n', 0);
        assert(false);
    } else {
        lemma_join_concat(ls, fresh, '\n');
        if ends_with_newline(content) {
            assert(join(ls, '\n') + seq!['\n'] == content);
            assert(out =~= content + rendered(shell, entries, stamp) + seq!['\n']);
        } else {
            assert(out =~= content + seq!['\n'] + rendered(shell, entries, stamp));
        }
    }
}

} // verus!
