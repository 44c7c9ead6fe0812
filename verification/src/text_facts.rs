//! What holds of splitting and joining: that each undoes the other, and what
//! follows for the lines of a text.

use vstd::prelude::*;
use crate::text::{
    contains_text, ends_with_newline, find_class, first_pair, has_at, has_pair, in_class,
    index_of, join, lemma_find_class, lemma_first_pair, lemma_index_of, lemma_join_push,
    lemma_skip_class, lemma_trim_end_len, lines_of, pair_at, pair_end, skip_class, split_from,
    split_on, trim_end_len, trimmed_by, unlines, words, words_from, CharClass,
};

verus! {

/// Whether `c` stands nowhere in `s`.
pub open spec fn lacks(s: Seq<char>, c: char) -> bool {
    forall|i: int| 0 <= i < s.len() ==> #[trigger] s[i] != c
}

/// Whether `c` stands in none of the texts `xs`.
pub open spec fn all_lack(xs: Seq<Seq<char>>, c: char) -> bool {
    forall|i: int| 0 <= i < xs.len() ==> lacks(#[trigger] xs[i], c)
}

/// A text in which a character of the pattern stands nowhere holds the
/// pattern nowhere.
pub proof fn lemma_absent_char(s: Seq<char>, pat: Seq<char>, k: int)
    requires
        0 <= k < pat.len(),
        lacks(s, pat[k]),
    ensures
        !contains_text(s, pat),
        forall|i: int| !#[trigger] has_at(s, pat, i),
{
    assert forall|i: int| !#[trigger] has_at(s, pat, i) by {
        if has_at(s, pat, i) {
            assert(s.subrange(i, i + pat.len())[k] == s[i + k]);
        }
    }
}

/// Behind a prefix, the search for a character goes on as in what follows.
pub proof fn lemma_index_of_shift(p: Seq<char>, r: Seq<char>, c: char, j: int)
    requires
        0 <= j <= r.len(),
    ensures
        index_of(p + r, c, p.len() + j) == p.len() + index_of(r, c, j),
    decreases r.len() - j,
{
    if j < r.len() {
        assert((p + r)[p.len() + j] == r[j]);
        if r[j] != c {
            lemma_index_of_shift(p, r, c, j + 1);
        }
    }
}

/// Behind a prefix, the pieces are those of what follows.
pub proof fn lemma_split_shift(p: Seq<char>, r: Seq<char>, sep: char, j: int)
    requires
        0 <= j <= r.len(),
    ensures
        split_from(p + r, sep, p.len() + j) == split_from(r, sep, j),
    decreases r.len() - j,
{
    let s = p + r;
    lemma_index_of_shift(p, r, sep, j);
    lemma_index_of(r, sep, j);
    let k = index_of(r, sep, j);
    if k < r.len() {
        lemma_split_shift(p, r, sep, k + 1);
        assert(s.subrange(p.len() + j, p.len() + k) =~= r.subrange(j, k));
    } else {
        assert(s.subrange(p.len() + j, s.len() as int) =~= r.subrange(j, r.len() as int));
    }
}

/// A text without the separator is its own single piece.
pub proof fn lemma_split_plain(s: Seq<char>, sep: char)
    requires
        lacks(s, sep),
    ensures
        split_on(s, sep) == seq![s],
{
    lemma_index_of(s, sep, 0);
    assert(s.subrange(0, s.len() as int) =~= s);
}

/// The pieces of a text, a separator and a rest are the text, where it
/// lacks the separator, and the pieces of the rest.
pub proof fn lemma_split_cons(a: Seq<char>, rest: Seq<char>, sep: char)
    requires
        lacks(a, sep),
    ensures
        split_on(a + seq![sep] + rest, sep) == seq![a] + split_on(rest, sep),
{
    let p = a + seq![sep];
    let s = p + rest;
    assert(index_of(s, sep, 0) == a.len()) by {
        lemma_index_of(s, sep, 0);
        assert(s[a.len() as int] == sep);
        assert forall|k: int| 0 <= k < a.len() implies s[k] != sep by {
            assert(s[k] == a[k]);
        }
        let k = index_of(s, sep, 0);
        if k < a.len() {
            assert(s[k] == sep);
        }
    }
    lemma_split_shift(p, rest, sep, 0);
    assert(s.subrange(0, a.len() as int) =~= a);
}

/// Cutting at the separator what was joined with it gives back the texts
/// that were joined, where none of them holds the separator.
pub proof fn lemma_split_join(xs: Seq<Seq<char>>, sep: char)
    requires
        xs.len() > 0,
        all_lack(xs, sep),
    ensures
        split_on(join(xs, sep), sep) == xs,
    decreases xs.len(),
{
    if xs.len() == 1 {
        lemma_split_plain(xs[0], sep);
        assert(xs =~= seq![xs[0]]);
    } else {
        let rest = xs.skip(1);
        assert(all_lack(rest, sep)) by {
            assert forall|i: int| 0 <= i < rest.len() implies lacks(#[trigger] rest[i], sep) by {
                assert(rest[i] == xs[i + 1]);
            }
        }
        lemma_split_join(rest, sep);
        lemma_split_cons(xs[0], join(rest, sep), sep);
        assert(xs =~= seq![xs[0]] + rest);
    }
}

/// No piece holds the separator.
pub proof fn lemma_pieces_lack(s: Seq<char>, sep: char, from: int)
    requires
        0 <= from <= s.len(),
    ensures
        all_lack(split_from(s, sep, from), sep),
        split_from(s, sep, from).len() >= 1,
    decreases s.len() - from,
{
    lemma_index_of(s, sep, from);
    let k = index_of(s, sep, from);
    if k < s.len() {
        lemma_pieces_lack(s, sep, k + 1);
        let rest = split_from(s, sep, k + 1);
        let all = split_from(s, sep, from);
        assert forall|i: int| 0 <= i < all.len() implies lacks(#[trigger] all[i], sep) by {
            if i > 0 {
                assert(all[i] == rest[i - 1]);
            }
        }
    }
}

/// No line of a text holds a line break.
pub proof fn lemma_lines_lack_newline(s: Seq<char>)
    ensures
        all_lack(lines_of(s), '\n'),
{
    lemma_pieces_lack(s, '\n', 0);
    let pieces = split_on(s, '\n');
    let ls = lines_of(s);
    assert forall|i: int| 0 <= i < ls.len() implies lacks(#[trigger] ls[i], '\n') by {
        assert(ls[i] == pieces[i]);
    }
}

/// The lines of the text made of given lines are those lines, where none of
/// them holds a line break.
pub proof fn lemma_lines_unlines(xs: Seq<Seq<char>>, closed: bool)
    requires
        all_lack(xs, '\n'),
    ensures
        lines_of(unlines(xs, closed)) == xs,
{
    if xs.len() == 0 {
        let e = Seq::<char>::empty();
        lemma_split_plain(e, '\n');
        assert(seq![e].drop_last() =~= xs);
    } else if closed || xs.last().len() == 0 {
        let e = Seq::<char>::empty();
        let ys = xs.push(e);
        lemma_join_push(xs, e, '\n');
        assert(join(ys, '\n') =~= join(xs, '\n') + seq!['\n']);
        assert(all_lack(ys, '\n')) by {
            assert forall|i: int| 0 <= i < ys.len() implies lacks(#[trigger] ys[i], '\n') by {
                if i < xs.len() {
                    assert(ys[i] == xs[i]);
                }
            }
        }
        lemma_split_join(ys, '\n');
        assert(ys.drop_last() =~= xs);
    } else {
        lemma_split_join(xs, '\n');
    }
}

/// A text is made of its lines: it ends with a line break or not, as it
/// did.
pub proof fn lemma_unlines_lines(s: Seq<char>)
    ensures
        unlines(lines_of(s), ends_with_newline(s)) == s,
{
    lemma_join_split(s, '\n', 0);
    let pieces = split_on(s, '\n');
    lemma_pieces_lack(s, '\n', 0);
    assert(s.subrange(0, s.len() as int) =~= s);
    lemma_last_piece(s, '\n', 0);
    if pieces.last().len() == 0 {
        let ls = pieces.drop_last();
        if ls.len() > 0 {
            lemma_join_push(ls, pieces.last(), '\n');
            assert(ls.push(pieces.last()) =~= pieces);
            assert(join(ls, '\n') + seq!['\n'] =~= s);
        } else {
            assert(pieces =~= seq![pieces.last()]);
            assert(s =~= Seq::<char>::empty());
        }
    }
}

/// The last piece of a text is empty exactly where the text is empty or
/// ends with the separator.
pub proof fn lemma_last_piece(s: Seq<char>, sep: char, from: int)
    requires
        0 <= from <= s.len(),
    ensures
        split_from(s, sep, from).last().len() == 0 <==> (from == s.len() || s.last() == sep),
    decreases s.len() - from,
{
    lemma_index_of(s, sep, from);
    let k = index_of(s, sep, from);
    if k < s.len() {
        lemma_last_piece(s, sep, k + 1);
        let rest = split_from(s, sep, k + 1);
        lemma_pieces_lack(s, sep, k + 1);
        assert(split_from(s, sep, from).last() == rest.last());
        if k + 1 == s.len() {
            assert(s.last() == sep);
        }
    } else {
        if from < s.len() {
            assert(s.last() != sep);
        }
    }
}

/// Joining the pieces of a text with the separator gives back the text.
pub proof fn lemma_join_split(s: Seq<char>, sep: char, from: int)
    requires
        0 <= from <= s.len(),
    ensures
        join(split_from(s, sep, from), sep) == s.subrange(from, s.len() as int),
    decreases s.len() - from,
{
    lemma_index_of(s, sep, from);
    let k = index_of(s, sep, from);
    if k < s.len() {
        lemma_join_split(s, sep, k + 1);
        lemma_pieces_lack(s, sep, k + 1);
        let rest = split_from(s, sep, k + 1);
        let all = split_from(s, sep, from);
        assert(all.skip(1) =~= rest);
        assert(all[0] == s.subrange(from, k));
        assert(join(all, sep) == all[0] + seq![sep] + join(rest, sep));
        assert(s.subrange(from, k) + seq![sep] + s.subrange(k + 1, s.len() as int) =~= s.subrange(
            from,
            s.len() as int,
        ));
    }
}

/// Joining texts that lack a character with another character gives a text
/// that lacks it.
pub proof fn lemma_join_lacks(xs: Seq<Seq<char>>, sep: char, c: char)
    requires
        all_lack(xs, c),
        sep != c,
    ensures
        lacks(join(xs, sep), c),
    decreases xs.len(),
{
    if xs.len() >= 2 {
        let rest = xs.skip(1);
        assert(all_lack(rest, c)) by {
            assert forall|i: int| 0 <= i < rest.len() implies lacks(#[trigger] rest[i], c) by {
                assert(rest[i] == xs[i + 1]);
            }
        }
        lemma_join_lacks(rest, sep, c);
        assert(lacks(xs[0], c));
    } else if xs.len() == 1 {
        assert(lacks(xs[0], c));
    }
}

/// Whether no character of `s` is of the class.
pub open spec fn free_of(s: Seq<char>, class: CharClass) -> bool {
    forall|i: int| 0 <= i < s.len() ==> !in_class(class, #[trigger] s[i])
}

/// Whether none of the texts `xs` holds a character of the class.
pub open spec fn all_free_of(xs: Seq<Seq<char>>, class: CharClass) -> bool {
    forall|i: int| 0 <= i < xs.len() ==> free_of(#[trigger] xs[i], class)
}

/// Joining texts that are free of a class with a separator outside the
/// class gives a text that is free of it.
pub proof fn lemma_join_free_of(xs: Seq<Seq<char>>, sep: char, class: CharClass)
    requires
        all_free_of(xs, class),
        !in_class(class, sep),
    ensures
        free_of(join(xs, sep), class),
    decreases xs.len(),
{
    if xs.len() >= 2 {
        let rest = xs.skip(1);
        assert(all_free_of(rest, class)) by {
            assert forall|i: int| 0 <= i < rest.len() implies free_of(
                #[trigger] rest[i],
                class,
            ) by {
                assert(rest[i] == xs[i + 1]);
            }
        }
        lemma_join_free_of(rest, sep, class);
        assert(free_of(xs[0], class));
    } else if xs.len() == 1 {
        assert(free_of(xs[0], class));
    }
}

/// What is joined from texts of which the first is not empty is not empty.
pub proof fn lemma_join_nonempty(xs: Seq<Seq<char>>, sep: char)
    requires
        xs.len() > 0,
        xs[0].len() > 0,
    ensures
        join(xs, sep).len() > 0,
{
}

/// The search for a character of a class ends at `r`, where no character
/// before `r` is of the class and the one at `r` is, or the text ends.
pub proof fn lemma_find_class_is(s: Seq<char>, class: CharClass, from: int, r: int)
    requires
        0 <= from <= r <= s.len(),
        forall|k: int| from <= k < r ==> !in_class(class, #[trigger] s[k]),
        r < s.len() ==> in_class(class, s[r]),
    ensures
        find_class(s, class, from) == r,
{
    lemma_find_class(s, class, from);
    let f = find_class(s, class, from);
    if f < r {
        assert(!in_class(class, s[f]));
    }
}

/// The skipping of the characters of a class ends at `r`, where every
/// character before `r` is of the class and the one at `r` is not, or the
/// text ends.
pub proof fn lemma_skip_class_is(s: Seq<char>, class: CharClass, from: int, r: int)
    requires
        0 <= from <= r <= s.len(),
        forall|k: int| from <= k < r ==> in_class(class, #[trigger] s[k]),
        r < s.len() ==> !in_class(class, s[r]),
    ensures
        skip_class(s, class, from) == r,
{
    lemma_skip_class(s, class, from);
    let f = skip_class(s, class, from);
    if f < r {
        assert(in_class(class, s[f]));
    }
}

/// The search for a character ends at `r`, where it stands at `r` and
/// nowhere before, or the text ends.
pub proof fn lemma_index_of_is(s: Seq<char>, c: char, from: int, r: int)
    requires
        0 <= from <= r <= s.len(),
        forall|k: int| from <= k < r ==> #[trigger] s[k] != c,
        r < s.len() ==> s[r] == c,
    ensures
        index_of(s, c, from) == r,
{
    lemma_index_of(s, c, from);
    let f = index_of(s, c, from);
    if f < r {
        assert(s[f] != c);
    }
}

/// Trimming leaves a text as it is, where neither its first nor its last
/// character is of the class.
pub proof fn lemma_trimmed_same(s: Seq<char>, class: CharClass)
    requires
        s.len() > 0,
        !in_class(class, s[0]),
        !in_class(class, s.last()),
    ensures
        trimmed_by(s, class) == s,
{
    lemma_trim_end_len(s, class);
    assert(s.subrange(0, s.len() as int) =~= s);
}

/// Trimming takes off what is of the class at both ends of a core that
/// neither begins nor ends with a character of the class.
pub proof fn lemma_trimmed_core(head: Seq<char>, core: Seq<char>, tail: Seq<char>, class: CharClass)
    requires
        core.len() > 0,
        !in_class(class, core[0]),
        !in_class(class, core.last()),
        forall|i: int| 0 <= i < head.len() ==> in_class(class, #[trigger] head[i]),
        forall|i: int| 0 <= i < tail.len() ==> in_class(class, #[trigger] tail[i]),
    ensures
        trimmed_by(head + core + tail, class) == core,
{
    let s = head + core + tail;
    let b = head.len() as int;
    let e = b + core.len();
    assert forall|k: int| 0 <= k < b implies in_class(class, #[trigger] s[k]) by {
        assert(s[k] == head[k]);
    }
    assert(s[b] == core[0]);
    lemma_skip_class_is(s, class, 0, b);
    lemma_trim_end_len(s, class);
    let t = trim_end_len(s, class);
    assert(s[e - 1] == core.last());
    if t < e {
        assert(in_class(class, s[e - 1]));
    }
    if t > e {
        assert(s[t - 1] == tail[t - 1 - e]);
    }
    assert(s.subrange(b, e) =~= core);
}

/// Where the pair stands at the very start of a text, that is where it is
/// first found.
pub proof fn lemma_pair_at_start(s: Seq<char>, a: Seq<char>, b: Seq<char>)
    requires
        pair_at(s, a, b, 0),
        s.len() > 0,
    ensures
        first_pair(s, a, b, 0) == 0,
        has_pair(s, a, b),
        pair_end(s, a, b) == skip_class(s, CharClass::Space, a.len() as int) + b.len(),
{
}

/// A text that holds the second word of a pair nowhere holds no pair.
pub proof fn lemma_no_pair(s: Seq<char>, a: Seq<char>, b: Seq<char>)
    requires
        forall|i: int| !#[trigger] has_at(s, b, i),
    ensures
        !has_pair(s, a, b),
{
    lemma_first_pair(s, a, b, 0);
}

/// Behind a prefix, the skipping of a class goes on as in what follows.
pub proof fn lemma_skip_class_shift(p: Seq<char>, r: Seq<char>, class: CharClass, j: int)
    requires
        0 <= j <= r.len(),
    ensures
        skip_class(p + r, class, p.len() + j) == p.len() + skip_class(r, class, j),
    decreases r.len() - j,
{
    if j < r.len() {
        assert((p + r)[p.len() + j] == r[j]);
        if in_class(class, r[j]) {
            lemma_skip_class_shift(p, r, class, j + 1);
        }
    }
}

/// Behind a prefix, the search for a class goes on as in what follows.
pub proof fn lemma_find_class_shift(p: Seq<char>, r: Seq<char>, class: CharClass, j: int)
    requires
        0 <= j <= r.len(),
    ensures
        find_class(p + r, class, p.len() + j) == p.len() + find_class(r, class, j),
    decreases r.len() - j,
{
    if j < r.len() {
        assert((p + r)[p.len() + j] == r[j]);
        if !in_class(class, r[j]) {
            lemma_find_class_shift(p, r, class, j + 1);
        }
    }
}

/// Behind a prefix, the words are those of what follows.
pub proof fn lemma_words_shift(p: Seq<char>, r: Seq<char>, j: int)
    requires
        0 <= j <= r.len(),
    ensures
        words_from(p + r, p.len() + j) == words_from(r, j),
    decreases r.len() - j,
{
    let s = p + r;
    lemma_skip_class_shift(p, r, CharClass::Space, j);
    lemma_skip_class(r, CharClass::Space, j);
    let b = skip_class(r, CharClass::Space, j);
    lemma_find_class_shift(p, r, CharClass::Space, b);
    lemma_find_class(r, CharClass::Space, b);
    let e = find_class(r, CharClass::Space, b);
    if b < e {
        lemma_words_shift(p, r, e);
        assert(s.subrange(p.len() + b, p.len() + e) =~= r.subrange(b, e));
    }
}

/// The words of what was joined with blanks are the texts that were joined,
/// where none of them is empty or holds white space.
pub proof fn lemma_words_join(xs: Seq<Seq<char>>)
    requires
        forall|i: int| 0 <= i < xs.len() ==> (#[trigger] xs[i]).len() > 0,
        all_free_of(xs, CharClass::Space),
    ensures
        words(join(xs, ' ')) == xs,
    decreases xs.len(),
{
    let j = join(xs, ' ');
    if xs.len() == 0 {
        assert(xs =~= Seq::<Seq<char>>::empty());
    } else {
        let x = xs[0];
        assert(free_of(x, CharClass::Space));
        assert forall|k: int| 0 <= k < x.len() implies !in_class(
            CharClass::Space,
            #[trigger] j[k],
        ) by {
            assert(j[k] == x[k]);
        }
        lemma_skip_class_is(j, CharClass::Space, 0, 0);
        if xs.len() == 1 {
            lemma_find_class_is(j, CharClass::Space, 0, x.len() as int);
            assert(j.subrange(0, x.len() as int) =~= x);
            lemma_skip_class_is(j, CharClass::Space, x.len() as int, x.len() as int);
            lemma_find_class_is(j, CharClass::Space, x.len() as int, x.len() as int);
            assert(words_from(j, x.len() as int) =~= Seq::<Seq<char>>::empty());
            assert(xs =~= seq![x]);
        } else {
            let rest = xs.skip(1);
            let jr = join(rest, ' ');
            assert forall|i: int| 0 <= i < rest.len() implies (#[trigger] rest[i]).len() > 0 by {
                assert(rest[i] == xs[i + 1]);
            }
            assert(all_free_of(rest, CharClass::Space)) by {
                assert forall|i: int| 0 <= i < rest.len() implies free_of(
                    #[trigger] rest[i],
                    CharClass::Space,
                ) by {
                    assert(rest[i] == xs[i + 1]);
                }
            }
            lemma_words_join(rest);
            assert(j[x.len() as int] == ' ');
            lemma_find_class_is(j, CharClass::Space, 0, x.len() as int);
            assert(j.subrange(0, x.len() as int) =~= x);
            // behind the first word stands a blank, and then the rest
            let r = seq![' '] + jr;
            assert(j =~= x + r);
            lemma_words_shift(x, r, 0);
            assert(words_from(r, 0) == words_from(r, 1));
            lemma_words_shift(seq![' '], jr, 0);
            assert(xs =~= seq![x] + rest);
        }
    }
}

/// Joining two rows of texts, neither of them empty, joins what each row
/// joins to.
pub proof fn lemma_join_concat(xs: Seq<Seq<char>>, ys: Seq<Seq<char>>, sep: char)
    requires
        xs.len() > 0,
        ys.len() > 0,
    ensures
        join(xs + ys, sep) == join(xs, sep) + seq![sep] + join(ys, sep),
    decreases ys.len(),
{
    if ys.len() == 1 {
        lemma_join_push(xs, ys[0], sep);
        assert(xs + ys =~= xs.push(ys[0]));
    } else {
        let front = ys.drop_last();
        lemma_join_concat(xs, front, sep);
        lemma_join_push(xs + front, ys.last(), sep);
        lemma_join_push(front, ys.last(), sep);
        assert(xs + ys =~= (xs + front).push(ys.last()));
        assert(ys =~= front.push(ys.last()));
        assert(join(xs + ys, sep) =~= join(xs, sep) + seq![sep] + join(ys, sep));
    }
}

/// The pieces of a text, a separator and a rest are the pieces of the text
/// and the pieces of the rest.
pub proof fn lemma_split_concat(a: Seq<char>, b: Seq<char>, sep: char, from: int)
    requires
        0 <= from <= a.len(),
    ensures
        split_from(a + seq![sep] + b, sep, from) == split_from(a, sep, from) + split_on(b, sep),
    decreases a.len() - from,
{
    let s = a + seq![sep] + b;
    lemma_index_of(a, sep, from);
    let k = index_of(a, sep, from);
    assert forall|i: int| from <= i < k implies #[trigger] s[i] != sep by {
        assert(s[i] == a[i]);
    }
    if k < a.len() {
        assert(s[k] == a[k]);
        lemma_index_of_is(s, sep, from, k);
        lemma_split_concat(a, b, sep, k + 1);
        assert(s.subrange(from, k) =~= a.subrange(from, k));
        assert(split_from(s, sep, from) =~= split_from(a, sep, from) + split_on(b, sep));
    } else {
        assert(s[k] == sep);
        lemma_index_of_is(s, sep, from, k);
        lemma_split_shift(a + seq![sep], b, sep, 0);
        assert(s.subrange(from, k) =~= a.subrange(from, a.len() as int));
        assert(split_from(s, sep, from) =~= split_from(a, sep, from) + split_on(b, sep));
    }
}

/// The pieces of all the texts `xs`, in order.
pub open spec fn all_pieces(xs: Seq<Seq<char>>, sep: char) -> Seq<Seq<char>>
    decreases xs.len(),
{
    if xs.len() == 0 {
        Seq::empty()
    } else {
        split_on(xs[0], sep) + all_pieces(xs.skip(1), sep)
    }
}

/// Cutting at the separator what was joined with it gives the pieces of the
/// texts that were joined.
pub proof fn lemma_split_join_pieces(xs: Seq<Seq<char>>, sep: char)
    requires
        xs.len() > 0,
    ensures
        split_on(join(xs, sep), sep) == all_pieces(xs, sep),
    decreases xs.len(),
{
    if xs.len() == 1 {
        assert(all_pieces(xs.skip(1), sep) =~= Seq::<Seq<char>>::empty());
        assert(all_pieces(xs, sep) =~= split_on(xs[0], sep));
    } else {
        let rest = xs.skip(1);
        lemma_split_join_pieces(rest, sep);
        lemma_split_concat(xs[0], join(rest, sep), sep, 0);
    }
}

/// Texts that lack the separator are their own pieces.
pub proof fn lemma_pieces_plain(xs: Seq<Seq<char>>, sep: char)
    requires
        all_lack(xs, sep),
    ensures
        all_pieces(xs, sep) == xs,
    decreases xs.len(),
{
    if xs.len() > 0 {
        let rest = xs.skip(1);
        assert(all_lack(rest, sep)) by {
            assert forall|i: int| 0 <= i < rest.len() implies lacks(#[trigger] rest[i], sep) by {
                assert(rest[i] == xs[i + 1]);
            }
        }
        lemma_pieces_plain(rest, sep);
        lemma_split_plain(xs[0], sep);
        assert(xs =~= seq![xs[0]] + rest);
    } else {
        assert(xs =~= Seq::<Seq<char>>::empty());
    }
}

/// The pieces of two rows of texts are the pieces of the one and the pieces
/// of the other.
pub proof fn lemma_pieces_concat(xs: Seq<Seq<char>>, ys: Seq<Seq<char>>, sep: char)
    ensures
        all_pieces(xs + ys, sep) == all_pieces(xs, sep) + all_pieces(ys, sep),
    decreases xs.len(),
{
    if xs.len() == 0 {
        assert(xs + ys =~= ys);
        assert(all_pieces(xs, sep) + all_pieces(ys, sep) =~= all_pieces(ys, sep));
    } else {
        lemma_pieces_concat(xs.skip(1), ys, sep);
        assert((xs + ys).skip(1) =~= xs.skip(1) + ys);
        assert((xs + ys)[0] == xs[0]);
        assert(all_pieces(xs + ys, sep) =~= all_pieces(xs, sep) + all_pieces(ys, sep));
    }
}

/// The lines that a text shows where the texts `inner` were joined into it
/// with line breaks: their pieces. Where `inner` stands at an open end of
/// the text and its last piece is empty, that piece is the text's final
/// line break and no line.
pub open spec fn lines_within(inner: Seq<Seq<char>>, at_open_end: bool) -> Seq<Seq<char>> {
    let full = all_pieces(inner, '\n');
    if at_open_end && inner.last().len() > 0 && full.last().len() == 0 {
        full.drop_last()
    } else {
        full
    }
}

/// Lines that stand before and behind other lines in a text are lines of
/// the text, in their places, whatever the other lines hold: the lines of
/// the text are the lines before, what the other lines show, and the lines
/// behind.
pub proof fn lemma_lines_framed(
    before: Seq<Seq<char>>,
    inner: Seq<Seq<char>>,
    behind: Seq<Seq<char>>,
    closed: bool,
)
    requires
        all_lack(before, '\n'),
        all_lack(behind, '\n'),
        inner.len() >= 2,
    ensures
        lines_of(unlines(before + inner + behind, closed)) == before + lines_within(
            inner,
            !closed && behind.len() == 0,
        ) + behind,
        lines_within(inner, !closed && behind.len() == 0).len() > 0,
{
    let zs = before + inner + behind;
    let e = Seq::<char>::empty();
    let text = unlines(zs, closed);
    let full = all_pieces(inner, '\n');
    // the inner lines have at least two pieces
    assert(full.len() >= 2) by {
        lemma_pieces_lack(inner[0], '\n', 0);
        lemma_pieces_lack(inner.skip(1)[0], '\n', 0);
        assert(all_pieces(inner.skip(1), '\n').len() >= 1);
    }
    lemma_pieces_plain(before, '\n');
    lemma_pieces_plain(behind, '\n');
    if closed || zs.last().len() == 0 {
        let tail = behind.push(e);
        let all = zs.push(e);
        lemma_join_push(zs, e, '\n');
        assert(join(all, '\n') =~= text);
        lemma_split_join_pieces(all, '\n');
        assert(all =~= before + (inner + tail));
        lemma_pieces_concat(before, inner + tail, '\n');
        lemma_pieces_concat(inner, tail, '\n');
        assert(all_lack(tail, '\n')) by {
            assert forall|i: int| 0 <= i < tail.len() implies lacks(#[trigger] tail[i], '\n') by {
                if i < behind.len() {
                    assert(tail[i] == behind[i]);
                }
            }
        }
        lemma_pieces_plain(tail, '\n');
        let pieces = split_on(text, '\n');
        assert(pieces =~= before + (full + tail));
        assert(pieces.last() == e);
        assert(pieces.drop_last() =~= before + full + behind);
        if behind.len() == 0 {
            assert(zs.last() == inner.last());
        }
    } else {
        lemma_split_join_pieces(zs, '\n');
        assert(zs =~= before + (inner + behind));
        lemma_pieces_concat(before, inner + behind, '\n');
        lemma_pieces_concat(inner, behind, '\n');
        let pieces = split_on(text, '\n');
        assert(pieces =~= before + (full + behind));
        if behind.len() > 0 {
            assert(pieces.last() == behind.last());
            assert(zs.last() == behind.last());
            assert(lines_of(text) =~= before + full + behind);
        } else {
            assert(zs.last() == inner.last());
            assert(pieces.last() == full.last());
            if full.last().len() == 0 {
                assert(pieces.drop_last() =~= before + full.drop_last() + behind);
            } else {
                assert(lines_of(text) =~= before + full + behind);
            }
        }
    }
}

/// Texts without line breaks show themselves as lines.
pub proof fn lemma_lines_within_plain(inner: Seq<Seq<char>>, at_open_end: bool)
    requires
        all_lack(inner, '\n'),
    ensures
        lines_within(inner, at_open_end) == inner,
{
    lemma_pieces_plain(inner, '\n');
}

} // verus!
