//! What is left of statements about `PATH` in a rewritten text: the freshly
//! written ones and no others, and beside the lines that were kept only the
//! lines that the writer adds for itself.

use vstd::prelude::*;
use crate::outside::is_stamp;
use crate::text::{lines_of, shown_lines};
use crate::utils::shell::handlers::{fish, stamp_line, tcsh};
use crate::utils::shell::laws::lemma_anchor;
use crate::utils::shell::rewrite::{
    anchor, base_lines, block, declarations, located, of_kind, rewritten, rewritten_lines,
    span_len, starts_at, statements, survivors,
};
use crate::utils::shell::roundtrip::{
    fish_writable, lemma_declarations_skip, lemma_fish_add_line, lemma_fish_quiet_lines,
    lemma_posix_export_line, lemma_posix_stamp_line, lemma_rewritten_quiet,
    lemma_tcsh_array_line, lemma_tcsh_stamp_line, lemma_tcsh_variable_line, lemma_zsh_fresh,
    settled, writable,
};
use crate::utils::shell::types::{Declaration, ModificationType, ShellType};

verus! {

/// The lines that a syntax writes beside its statements: the comment that
/// names the writer and the time, and what stands round the statements.
pub open spec fn annotations(shell: ShellType, stamp: Seq<char>) -> Seq<Seq<char>> {
    match shell {
        ShellType::Zsh => seq!["export PATH"@, stamp_line(stamp)],
        ShellType::Fish => seq![stamp_line(stamp), "set -e PATH"@],
        _ => seq![stamp_line(stamp)],
    }
}

/// Lines at which no statement begins are all kept.
pub proof fn lemma_survivors_all(shell: ShellType, zs: Seq<Seq<char>>, from: int, to: int)
    requires
        0 <= from <= to <= zs.len(),
        forall|p: int| from <= p < to ==> !starts_at(shell, zs, p),
    ensures
        survivors(shell, zs, from) == zs.subrange(from, to) + survivors(shell, zs, to),
    decreases to - from,
{
    if from < to {
        assert(!starts_at(shell, zs, from));
        lemma_survivors_all(shell, zs, from + 1, to);
        assert(seq![zs[from]] + zs.subrange(from + 1, to) =~= zs.subrange(from, to));
        assert(survivors(shell, zs, from) =~= zs.subrange(from, to) + survivors(shell, zs, to));
    } else {
        assert(zs.subrange(from, to) + survivors(shell, zs, to) =~= survivors(shell, zs, to));
    }
}

/// The statements that begin from `from` on begin before `to`, where none
/// begins from `to` on.
pub proof fn lemma_declarations_within(
    shell: ShellType,
    zs: Seq<Seq<char>>,
    shown: Seq<Seq<char>>,
    from: int,
    to: int,
)
    requires
        0 <= from <= zs.len(),
        0 <= to <= zs.len(),
        forall|p: int| to <= p < zs.len() ==> !starts_at(shell, zs, p),
    ensures
        forall|i: int|
            0 <= i < declarations(shell, zs, shown, from).len() ==> from < (
            #[trigger] declarations(shell, zs, shown, from)[i]).line <= to,
    decreases zs.len() - from,
{
    if from < zs.len() {
        let found = declarations(shell, zs, shown, from);
        if starts_at(shell, zs, from) {
            let next = from + span_len(shell, zs, from);
            lemma_declarations_within(shell, zs, shown, next, to);
            let rest = declarations(shell, zs, shown, next);
            assert forall|i: int| 0 <= i < found.len() implies from < (#[trigger] found[i]).line
                <= to by {
                if i > 0 {
                    assert(found[i] == rest[i - 1]);
                }
            }
        } else {
            lemma_declarations_within(shell, zs, shown, from + 1, to);
            let rest = declarations(shell, zs, shown, from + 1);
            assert forall|i: int| 0 <= i < found.len() implies from < (#[trigger] found[i]).line
                <= to by {
                assert(found[i] == rest[i]);
            }
        }
    }
}

/// What holds of every statement holds of every statement of one kind.
pub proof fn lemma_of_kind_keeps(
    found: Seq<Declaration>,
    arrays: bool,
    holds: spec_fn(Declaration) -> bool,
)
    requires
        forall|i: int| 0 <= i < found.len() ==> holds(#[trigger] found[i]),
    ensures
        forall|i: int|
            0 <= i < of_kind(found, arrays).len() ==> holds(#[trigger] of_kind(found, arrays)[i]),
    decreases found.len(),
{
    if found.len() > 0 {
        let rest = found.skip(1);
        assert forall|i: int| 0 <= i < rest.len() implies holds(#[trigger] rest[i]) by {
            assert(rest[i] == found[i + 1]);
        }
        lemma_of_kind_keeps(rest, arrays, holds);
        let part = of_kind(found, arrays);
        let tail = of_kind(rest, arrays);
        assert forall|i: int| 0 <= i < part.len() implies holds(#[trigger] part[i]) by {
            if (found[0].kind == ModificationType::ArrayModification) == arrays {
                if i == 0 {
                    assert(part[0] == found[0]);
                } else {
                    assert(part[i] == tail[i - 1]);
                }
            } else {
                assert(part[i] == tail[i]);
            }
        }
    }
}

/// Of the lines that fish's syntax writes for directories, none is kept.
proof fn lemma_fish_adds_go(zs: Seq<Seq<char>>, base: int, entries: Seq<Seq<char>>, i: int)
    requires
        writable(ShellType::Fish, entries),
        0 <= i <= entries.len(),
        0 <= base,
        base + entries.len() <= zs.len(),
        forall|j: int|
            0 <= j < entries.len() ==> #[trigger] zs[base + j] == fish::add_line(entries[j]),
    ensures
        survivors(ShellType::Fish, zs, base + i) == survivors(
            ShellType::Fish,
            zs,
            base + entries.len(),
        ),
    decreases entries.len() - i,
{
    if i < entries.len() {
        assert(fish_writable(entries[i]));
        lemma_fish_add_line(entries[i]);
        lemma_fish_adds_go(zs, base, entries, i + 1);
        assert(zs[base + i] == fish::add_line(entries[i]));
        assert(span_len(ShellType::Fish, zs, base + i) == 1);
    }
}

/// Where the lines that a syntax writes stand in a text from line `k` on,
/// the lines kept from there on are the lines it writes beside its
/// statements, and what is kept behind them.
pub proof fn lemma_fresh_survivors(
    shell: ShellType,
    zs: Seq<Seq<char>>,
    k: int,
    entries: Seq<Seq<char>>,
    stamp: Seq<char>,
)
    requires
        writable(shell, entries),
        is_stamp(stamp),
        0 <= k,
        k + block(shell, entries, stamp).len() <= zs.len(),
        zs.subrange(k, k + block(shell, entries, stamp).len()) == block(shell, entries, stamp),
    ensures
        survivors(shell, zs, k) == annotations(shell, stamp) + survivors(
            shell,
            zs,
            k + block(shell, entries, stamp).len(),
        ),
{
    let fresh = block(shell, entries, stamp);
    let n = entries.len() as int;
    let part = zs.subrange(k, k + fresh.len());
    assert forall|j: int| 0 <= j < fresh.len() implies #[trigger] zs[k + j] == fresh[j] by {
        assert(part[j] == zs[k + j]);
    }
    match shell {
        ShellType::Zsh => {
            lemma_zsh_fresh(zs, k, entries, stamp);
            assert(survivors(shell, zs, k) == survivors(shell, zs, k + n + 2));
            assert(survivors(shell, zs, k + n + 2) == seq![zs[k + n + 2]] + survivors(
                shell,
                zs,
                k + n + 3,
            ));
            assert(survivors(shell, zs, k + n + 3) == seq![zs[k + n + 3]] + survivors(
                shell,
                zs,
                k + n + 4,
            ));
            assert(survivors(shell, zs, k) =~= annotations(shell, stamp) + survivors(
                shell,
                zs,
                k + n + 4,
            ));
        },
        ShellType::Fish => {
            lemma_fish_quiet_lines(stamp);
            assert(zs[k + 0] == fresh[0]);
            assert(zs[k + 1] == fresh[1]);
            assert(span_len(shell, zs, k) == 0);
            assert(span_len(shell, zs, k + 1) == 0);
            assert forall|j: int| 0 <= j < n implies #[trigger] zs[k + 2 + j] == fish::add_line(
                entries[j],
            ) by {
                assert(zs[k + (2 + j)] == fresh[2 + j]);
            }
            lemma_fish_adds_go(zs, k + 2, entries, 0);
            assert(survivors(shell, zs, k) == seq![zs[k]] + survivors(shell, zs, k + 1));
            assert(survivors(shell, zs, k + 1) == seq![zs[k + 1]] + survivors(shell, zs, k + 2));
            assert(survivors(shell, zs, k) =~= annotations(shell, stamp) + survivors(
                shell,
                zs,
                k + 2 + n,
            ));
        },
        ShellType::Tcsh => {
            lemma_tcsh_stamp_line(stamp);
            lemma_tcsh_array_line(entries);
            lemma_tcsh_variable_line(entries);
            assert(zs[k + 0] == fresh[0]);
            assert(zs[k + 1] == fresh[1]);
            assert(zs[k + 2] == fresh[2]);
            assert(span_len(shell, zs, k) == 0);
            assert(tcsh::pairs(zs, k + 1));
            assert(span_len(shell, zs, k + 1) == 2);
            assert(survivors(shell, zs, k) == seq![zs[k]] + survivors(shell, zs, k + 1));
            assert(survivors(shell, zs, k + 1) == survivors(shell, zs, k + 3));
        },
        _ => {
            lemma_posix_stamp_line(stamp);
            lemma_posix_export_line(entries);
            assert(zs[k + 0] == fresh[0]);
            assert(zs[k + 1] == fresh[1]);
            assert(span_len(shell, zs, k) == 0);
            assert(span_len(shell, zs, k + 1) == 1);
            assert(survivors(shell, zs, k) == seq![zs[k]] + survivors(shell, zs, k + 1));
            assert(survivors(shell, zs, k + 1) == survivors(shell, zs, k + 2));
        },
    }
}

/// With all statements about `PATH` taken out of both, a rewritten text and
/// the text as it was hold the same lines in the same order, but for the
/// lines that the writer adds beside its statements; these stand where the
/// first statement stood. This holds for every text in which no block is
/// left open before the first statement, and for every list of directories
/// that the syntax can write down.
pub proof fn lemma_rewrite_differs_by_annotations(
    shell: ShellType,
    content: Seq<char>,
    entries: Seq<Seq<char>>,
    stamp: Seq<char>,
)
    requires
        writable(shell, entries),
        is_stamp(stamp),
        settled(shell, base_lines(content)),
    ensures
        ({
            let ls = base_lines(content);
            let kept = survivors(shell, ls, 0);
            let a = anchor(shell, ls, 0);
            let after = lines_of(rewritten(shell, content, entries, stamp));
            &&& 0 <= a <= kept.len()
            &&& survivors(shell, after, 0) == kept.take(a) + annotations(shell, stamp) + kept.skip(
                a,
            )
        }),
{
    let ls = base_lines(content);
    let kept = survivors(shell, ls, 0);
    let a = anchor(shell, ls, 0);
    let fresh = block(shell, entries, stamp);
    let m = fresh.len() as int;
    let zs = rewritten_lines(shell, ls, fresh);
    lemma_rewritten_quiet(shell, content, entries, stamp);
    lemma_anchor(shell, ls, 0);
    crate::utils::shell::laws::lemma_survivors_to_anchor(shell, ls, 0);
    lemma_survivors_all(shell, zs, 0, a);
    lemma_fresh_survivors(shell, zs, a, entries, stamp);
    lemma_survivors_all(shell, zs, a + m, zs.len() as int);
    assert(zs.subrange(0, a) =~= ls.take(a));
    assert(kept.take(a) =~= ls.take(a));
    assert(kept.skip(a) =~= survivors(shell, ls, a));
    assert(zs.subrange(a + m, zs.len() as int) =~= survivors(shell, ls, a));
    assert(survivors(shell, zs, 0) =~= kept.take(a) + annotations(shell, stamp) + kept.skip(a));
}

/// However many statements about `PATH` a text held, in the rewritten text
/// every statement begins within the freshly written lines: no older
/// statement is left. This holds for every text in which no block is left
/// open before the first statement, and for every list of directories that
/// the syntax can write down.
pub proof fn lemma_rewrite_leaves_only_fresh(
    shell: ShellType,
    content: Seq<char>,
    entries: Seq<Seq<char>>,
    stamp: Seq<char>,
)
    requires
        writable(shell, entries),
        is_stamp(stamp),
        settled(shell, base_lines(content)),
    ensures
        ({
            let a = anchor(shell, base_lines(content), 0);
            let found = located(shell, rewritten(shell, content, entries, stamp));
            forall|i: int|
                0 <= i < found.len() ==> a < (#[trigger] found[i]).line <= a + block(
                    shell,
                    entries,
                    stamp,
                ).len()
        }),
{
    let ls = base_lines(content);
    let a = anchor(shell, ls, 0);
    let fresh = block(shell, entries, stamp);
    let zs = rewritten_lines(shell, ls, fresh);
    let out = rewritten(shell, content, entries, stamp);
    let shown = shown_lines(out);
    let to = a + fresh.len();
    lemma_rewritten_quiet(shell, content, entries, stamp);
    lemma_declarations_skip(shell, zs, shown, 0, a);
    lemma_declarations_within(shell, zs, shown, a, to);
    let all = statements(shell, out);
    let found = located(shell, out);
    let within = |d: Declaration| a < d.line <= to;
    assert forall|i: int| 0 <= i < all.len() implies within(#[trigger] all[i]) by {}
    lemma_of_kind_keeps(all, true, within);
    lemma_of_kind_keeps(all, false, within);
    assert forall|i: int| 0 <= i < found.len() implies a < (#[trigger] found[i]).line <= to by {
        if shell == ShellType::Zsh {
            let first = of_kind(all, true);
            let later = of_kind(all, false);
            if i < first.len() {
                assert(found[i] == first[i]);
                assert(within(first[i]));
            } else {
                assert(found[i] == later[i - first.len()]);
                assert(within(later[i - first.len()]));
            }
        } else {
            assert(found[i] == all[i]);
            assert(within(all[i]));
        }
    }
}

} // verus!
