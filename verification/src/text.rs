//! Text as sequences of characters: classes of characters, trimming, searching,
//! splitting and joining. Everything the shell syntaxes are built from.

use vstd::prelude::*;

verus! {

/// The rows of a vector of character vectors, each as a sequence.
pub open spec fn rows(v: Seq<Vec<char>>) -> Seq<Seq<char>> {
    Seq::new(v.len(), |i: int| v[i]@)
}

/// The strings of a sequence, each as a sequence of characters.
pub open spec fn texts(v: Seq<String>) -> Seq<Seq<char>> {
    Seq::new(v.len(), |i: int| v[i]@)
}

/// The characters of `s`, in order.
pub fn chars_of(s: &str) -> (out: Vec<char>)
    ensures
        out@ == s@,
{
    let mut out: Vec<char> = Vec::new();
    for c in it: s.chars()
        invariant
            out@ == it.seq().take(it.index() as int),
            it.seq() == s@,
    {
        out.push(c);
    }
    out
}

/// The string made of the characters of `v`, in order.
pub fn string_of(v: &Vec<char>) -> (out: String)
    ensures
        out@ == v@,
{
    let mut out = String::new();
    let mut i: usize = 0;
    while i < v.len()
        invariant
            i <= v.len(),
            out@ == v@.take(i as int),
        decreases v.len() - i,
    {
        out.push(v[i]);
        i += 1;
    }
    out
}

/// The character vectors of a slice of strings.
pub fn chars_of_all(items: &[String]) -> (out: Vec<Vec<char>>)
    ensures
        rows(out@) == texts(items@),
{
    let mut out: Vec<Vec<char>> = Vec::new();
    let mut i: usize = 0;
    while i < items.len()
        invariant
            i <= items.len(),
            out.len() == i,
            forall|k: int| 0 <= k < i ==> out@[k]@ == #[trigger] items@[k]@,
        decreases items.len() - i,
    {
        let row = chars_of(items[i].as_str());
        out.push(row);
        i += 1;
    }
    assert(rows(out@) =~= texts(items@));
    out
}

/// The strings of a vector of character vectors.
pub fn strings_of_all(items: &Vec<Vec<char>>) -> (out: Vec<String>)
    ensures
        texts(out@) == rows(items@),
{
    let mut out: Vec<String> = Vec::new();
    let mut i: usize = 0;
    while i < items.len()
        invariant
            i <= items.len(),
            out.len() == i,
            forall|k: int| 0 <= k < i ==> out@[k]@ == #[trigger] items@[k]@,
        decreases items.len() - i,
    {
        let row = string_of(&items[i]);
        out.push(row);
        i += 1;
    }
    assert(texts(out@) =~= rows(items@));
    out
}

/// Appends `row` to `out`.
pub fn push_row(out: &mut Vec<Vec<char>>, row: Vec<char>)
    ensures
        rows(final(out)@) == rows(old(out)@).push(row@),
{
    out.push(row);
    assert(rows(out@) =~= rows(old(out)@).push(row@));
}

/// Appends the rows of `more` to `out`.
pub fn push_rows(out: &mut Vec<Vec<char>>, more: Vec<Vec<char>>)
    ensures
        rows(final(out)@) == rows(old(out)@) + rows(more@),
{
    let mut more = more;
    let ghost added = rows(more@);
    out.append(&mut more);
    assert(rows(out@) =~= rows(old(out)@) + added);
}

/// A copy of row `i` of `items`.
pub fn copy_row(items: &Vec<Vec<char>>, i: usize) -> (row: Vec<char>)
    requires
        i < items.len(),
    ensures
        row@ == rows(items@)[i as int],
{
    let mut row: Vec<char> = Vec::new();
    push_all(&mut row, &items[i]);
    assert(row@ =~= items@[i as int]@);
    row
}

/// A class of characters that trimming can remove.
#[derive(Debug, Clone, Copy, PartialEq, Eq, Structural)]
pub enum CharClass {
    /// White space, as Unicode lists it.
    Space,
    /// What may wrap a written path: a quote character or a blank.
    Wrap,
    /// A double or a single quote.
    Quote,
    /// What ends a word that a comment may follow: white space or `#`.
    Stop,
}

/// Whether `c` is white space: the code points that Unicode gives the
/// property `White_Space`.
pub open spec fn is_space(c: char) -> bool {
    let n = c as u32;
    n == 0x20 || (0x09 <= n && n <= 0x0d) || n == 0x85 || n == 0xa0 || n == 0x1680 || (0x2000
        <= n && n <= 0x200a) || n == 0x2028 || n == 0x2029 || n == 0x202f || n == 0x205f || n
        == 0x3000
}

/// Whether `c` is a double quote, a single quote or a blank.
pub open spec fn is_wrap(c: char) -> bool {
    c == '"' || c == '\'' || c == ' '
}

/// Whether `c` belongs to `class`.
pub open spec fn in_class(class: CharClass, c: char) -> bool {
    match class {
        CharClass::Space => is_space(c),
        CharClass::Wrap => is_wrap(c),
        CharClass::Quote => c == '"' || c == '\'',
        CharClass::Stop => is_space(c) || c == '#',
    }
}

/// Whether `c` belongs to `class`.
pub fn class_has(class: CharClass, c: char) -> (b: bool)
    ensures
        b == in_class(class, c),
{
    let n: u32 = c as u32;
    let space = n == 0x20 || (0x09 <= n && n <= 0x0d) || n == 0x85 || n == 0xa0 || n == 0x1680 || (
    0x2000 <= n && n <= 0x200a) || n == 0x2028 || n == 0x2029 || n == 0x202f || n == 0x205f || n
        == 0x3000;
    match class {
        CharClass::Space => space,
        CharClass::Wrap => c == '"' || c == '\'' || c == ' ',
        CharClass::Quote => c == '"' || c == '\'',
        CharClass::Stop => space || c == '#',
    }
}

/// The first position at or after `from` whose character is outside `class`,
/// or the length of `s` where there is none.
pub open spec fn skip_class(s: Seq<char>, class: CharClass, from: int) -> int
    decreases s.len() - from,
{
    if 0 <= from < s.len() && in_class(class, s[from]) {
        skip_class(s, class, from + 1)
    } else {
        from
    }
}

/// The length of `s` without the characters of `class` at its end.
pub open spec fn trim_end_len(s: Seq<char>, class: CharClass) -> int
    decreases s.len(),
{
    if s.len() > 0 && in_class(class, s.last()) {
        trim_end_len(s.drop_last(), class)
    } else {
        s.len() as int
    }
}

/// `s` without the characters of `class` at its start and at its end.
pub open spec fn trimmed_by(s: Seq<char>, class: CharClass) -> Seq<char> {
    let b = skip_class(s, class, 0);
    let e = trim_end_len(s, class);
    if b < e {
        s.subrange(b, e)
    } else {
        Seq::empty()
    }
}

/// `s` without the white space at its start and at its end.
pub open spec fn trimmed(s: Seq<char>) -> Seq<char> {
    trimmed_by(s, CharClass::Space)
}

/// `skip_class` stays within the text and passes only characters of the class.
pub proof fn lemma_skip_class(s: Seq<char>, class: CharClass, from: int)
    requires
        0 <= from <= s.len(),
    ensures
        from <= skip_class(s, class, from) <= s.len(),
        forall|k: int| from <= k < skip_class(s, class, from) ==> in_class(class, #[trigger] s[k]),
        skip_class(s, class, from) < s.len() ==> !in_class(
            class,
            s[skip_class(s, class, from)],
        ),
    decreases s.len() - from,
{
    if from < s.len() && in_class(class, s[from]) {
        lemma_skip_class(s, class, from + 1);
    }
}

/// `trim_end_len` stays within the text and cuts only characters of the class.
pub proof fn lemma_trim_end_len(s: Seq<char>, class: CharClass)
    ensures
        0 <= trim_end_len(s, class) <= s.len(),
        forall|k: int| trim_end_len(s, class) <= k < s.len() ==> in_class(class, #[trigger] s[k]),
        trim_end_len(s, class) > 0 ==> !in_class(class, s[trim_end_len(s, class) - 1]),
    decreases s.len(),
{
    if s.len() > 0 && in_class(class, s.last()) {
        let t = s.drop_last();
        lemma_trim_end_len(t, class);
        assert forall|k: int| trim_end_len(s, class) <= k < s.len() implies in_class(
            class,
            #[trigger] s[k],
        ) by {
            if k < t.len() {
                assert(s[k] == t[k]);
            }
        }
        if trim_end_len(s, class) > 0 {
            assert(s[trim_end_len(s, class) - 1] == t[trim_end_len(s, class) - 1]);
        }
    }
}

/// The first position at or after `from` whose character is outside `class`.
pub fn skip_over(s: &Vec<char>, class: CharClass, from: usize) -> (r: usize)
    requires
        from <= s.len(),
    ensures
        r == skip_class(s@, class, from as int),
        from <= r <= s.len(),
{
    let mut i: usize = from;
    while i < s.len() && class_has(class, s[i])
        invariant
            from <= i <= s.len(),
            skip_class(s@, class, from as int) == skip_class(s@, class, i as int),
        decreases s.len() - i,
    {
        i += 1;
    }
    i
}

/// The length of `s` without the characters of `class` at its end.
pub fn trim_end_of(s: &Vec<char>, class: CharClass) -> (r: usize)
    ensures
        r == trim_end_len(s@, class),
        r <= s.len(),
{
    let mut e: usize = s.len();
    assert(s@.take(s.len() as int) =~= s@);
    while e > 0 && class_has(class, s[e - 1])
        invariant
            e <= s.len(),
            trim_end_len(s@, class) == trim_end_len(s@.take(e as int), class),
        decreases e,
    {
        assert(s@.take(e as int).drop_last() =~= s@.take(e - 1));
        e -= 1;
    }
    e
}

/// The characters of `s` from `from` up to `to`.
pub fn slice_of(s: &Vec<char>, from: usize, to: usize) -> (out: Vec<char>)
    requires
        from <= to <= s.len(),
    ensures
        out@ == s@.subrange(from as int, to as int),
{
    let mut out: Vec<char> = Vec::new();
    let mut i: usize = from;
    while i < to
        invariant
            from <= i <= to <= s.len(),
            out@ == s@.subrange(from as int, i as int),
        decreases to - i,
    {
        out.push(s[i]);
        i += 1;
    }
    out
}

/// `s` without the characters of `class` at its start and at its end.
pub fn trim_by(s: &Vec<char>, class: CharClass) -> (out: Vec<char>)
    ensures
        out@ == trimmed_by(s@, class),
{
    let b = skip_over(s, class, 0);
    let e = trim_end_of(s, class);
    if b < e {
        slice_of(s, b, e)
    } else {
        Vec::new()
    }
}

/// `s` without the white space at its start and at its end.
pub fn trim(s: &Vec<char>) -> (out: Vec<char>)
    ensures
        out@ == trimmed(s@),
{
    trim_by(s, CharClass::Space)
}

/// Appends the characters of `more` to `out`.
pub fn push_all(out: &mut Vec<char>, more: &Vec<char>)
    ensures
        final(out)@ == old(out)@ + more@,
{
    let mut i: usize = 0;
    while i < more.len()
        invariant
            i <= more.len(),
            out@ == old(out)@ + more@.take(i as int),
        decreases more.len() - i,
    {
        out.push(more[i]);
        i += 1;
    }
    assert(more@.take(more.len() as int) =~= more@);
}

/// Whether `pat` stands in `s` at position `i`.
pub open spec fn has_at(s: Seq<char>, pat: Seq<char>, i: int) -> bool {
    0 <= i && i + pat.len() <= s.len() && s.subrange(i, i + pat.len()) == pat
}

/// Whether `s` begins with `pat`.
pub open spec fn starts_with(s: Seq<char>, pat: Seq<char>) -> bool {
    has_at(s, pat, 0)
}

/// Whether `pat` stands somewhere in `s`.
pub open spec fn contains_text(s: Seq<char>, pat: Seq<char>) -> bool {
    exists|i: int| has_at(s, pat, i)
}

/// The first position at or after `from` where `pat` stands in `s`, or -1
/// where it stands at none.
pub open spec fn first_at(s: Seq<char>, pat: Seq<char>, from: int) -> int
    decreases s.len() - from,
{
    if from < 0 || from + pat.len() > s.len() {
        -1
    } else if has_at(s, pat, from) {
        from
    } else if from < s.len() {
        first_at(s, pat, from + 1)
    } else {
        -1
    }
}

/// `first_at` finds the first occurrence, and -1 only where there is none.
pub proof fn lemma_first_at(s: Seq<char>, pat: Seq<char>, from: int)
    requires
        0 <= from,
    ensures
        first_at(s, pat, from) == -1 || (from <= first_at(s, pat, from) && has_at(
            s,
            pat,
            first_at(s, pat, from),
        )),
        forall|j: int|
            from <= j && (first_at(s, pat, from) == -1 || j < first_at(s, pat, from))
                ==> !#[trigger] has_at(s, pat, j),
    decreases s.len() - from,
{
    if from + pat.len() > s.len() {
    } else if has_at(s, pat, from) {
    } else if from < s.len() {
        lemma_first_at(s, pat, from + 1);
    } else {
        assert(s.subrange(from, from + pat.len()) =~= pat);
    }
}

/// A text contains a pattern exactly where a search from its start finds one.
pub proof fn lemma_contains_first_at(s: Seq<char>, pat: Seq<char>)
    ensures
        contains_text(s, pat) <==> first_at(s, pat, 0) >= 0,
{
    lemma_first_at(s, pat, 0);
    if first_at(s, pat, 0) >= 0 {
        assert(has_at(s, pat, first_at(s, pat, 0)));
    }
}

/// Whether `pat` stands in `s` at position `i`.
pub fn matches_at(s: &Vec<char>, pat: &Vec<char>, i: usize) -> (b: bool)
    ensures
        b == has_at(s@, pat@, i as int),
{
    if pat.len() > s.len() || i > s.len() - pat.len() {
        return false;
    }
    let mut k: usize = 0;
    while k < pat.len()
        invariant
            k <= pat.len(),
            i + pat.len() <= s.len(),
            forall|j: int| 0 <= j < k ==> s@[i + j] == #[trigger] pat@[j],
        decreases pat.len() - k,
    {
        if s[i + k] != pat[k] {
            assert(s@.subrange(i as int, i + pat.len())[k as int] == s@[i + k]);
            return false;
        }
        k += 1;
    }
    assert(s@.subrange(i as int, i + pat.len()) =~= pat@);
    true
}

/// The first position at or after `from` where `pat` stands in `s`.
pub fn find(s: &Vec<char>, pat: &Vec<char>, from: usize) -> (r: Option<usize>)
    ensures
        match r {
            Some(i) => first_at(s@, pat@, from as int) == i,
            None => first_at(s@, pat@, from as int) == -1,
        },
{
    if pat.len() > s.len() {
        return None;
    }
    let last: usize = s.len() - pat.len();
    let mut i: usize = from;
    while i <= last
        invariant
            from <= i,
            last + pat.len() == s.len(),
            first_at(s@, pat@, from as int) == first_at(s@, pat@, i as int),
        decreases last + 1 - i,
    {
        if matches_at(s, pat, i) {
            return Some(i);
        }
        if i == last {
            assert(first_at(s@, pat@, i + 1) == -1);
            return None;
        }
        i += 1;
    }
    None
}

/// Whether `pat` stands somewhere in `s`.
pub fn contains(s: &Vec<char>, pat: &Vec<char>) -> (b: bool)
    ensures
        b == contains_text(s@, pat@),
{
    proof {
        lemma_contains_first_at(s@, pat@);
    }
    find(s, pat, 0).is_some()
}

/// The first position at or after `from` that holds `c`, or the length of
/// `s` where none does.
pub open spec fn index_of(s: Seq<char>, c: char, from: int) -> int
    decreases s.len() - from,
{
    if 0 <= from < s.len() && s[from] != c {
        index_of(s, c, from + 1)
    } else {
        from
    }
}

/// `index_of` stays within the text and passes no occurrence.
pub proof fn lemma_index_of(s: Seq<char>, c: char, from: int)
    requires
        0 <= from <= s.len(),
    ensures
        from <= index_of(s, c, from) <= s.len(),
        forall|k: int| from <= k < index_of(s, c, from) ==> #[trigger] s[k] != c,
        index_of(s, c, from) < s.len() ==> s[index_of(s, c, from)] == c,
    decreases s.len() - from,
{
    if from < s.len() && s[from] != c {
        lemma_index_of(s, c, from + 1);
    }
}

/// The first position at or after `from` that holds `c`.
pub fn find_char(s: &Vec<char>, c: char, from: usize) -> (r: usize)
    requires
        from <= s.len(),
    ensures
        r == index_of(s@, c, from as int),
        from <= r <= s.len(),
{
    let mut i: usize = from;
    while i < s.len() && s[i] != c
        invariant
            from <= i <= s.len(),
            index_of(s@, c, from as int) == index_of(s@, c, i as int),
        decreases s.len() - i,
    {
        i += 1;
    }
    i
}

/// The pieces of `s` from `from` on, cut at each `sep`.
pub open spec fn split_from(s: Seq<char>, sep: char, from: int) -> Seq<Seq<char>>
    decreases s.len() - from,
{
    let k = index_of(s, sep, from);
    if 0 <= from <= k < s.len() {
        seq![s.subrange(from, k)] + split_from(s, sep, k + 1)
    } else {
        seq![s.subrange(from, s.len() as int)]
    }
}

/// The pieces of `s`, cut at each `sep`: one more than there are separators.
pub open spec fn split_on(s: Seq<char>, sep: char) -> Seq<Seq<char>> {
    split_from(s, sep, 0)
}

/// The pieces of `s`, cut at each `sep`.
pub fn split(s: &Vec<char>, sep: char) -> (out: Vec<Vec<char>>)
    ensures
        rows(out@) == split_on(s@, sep),
        out.len() >= 1,
{
    let mut out: Vec<Vec<char>> = Vec::new();
    let mut start: usize = 0;
    let mut done = false;
    assert(rows(out@) + split_from(s@, sep, 0) =~= split_on(s@, sep));
    while !done
        invariant
            start <= s.len(),
            !done ==> split_on(s@, sep) == rows(out@) + split_from(s@, sep, start as int),
            done ==> rows(out@) == split_on(s@, sep) && out.len() >= 1,
        decreases s.len() - start + (if done { 0int } else { 1int }),
    {
        let k = find_char(s, sep, start);
        let ghost before = rows(out@);
        if k < s.len() {
            let piece = slice_of(s, start, k);
            out.push(piece);
            assert(rows(out@) =~= before.push(piece@));
            assert(split_on(s@, sep) =~= rows(out@) + split_from(s@, sep, k + 1));
            start = k + 1;
        } else {
            let piece = slice_of(s, start, s.len());
            out.push(piece);
            assert(rows(out@) =~= before.push(piece@));
            assert(split_on(s@, sep) =~= rows(out@));
            done = true;
        }
    }
    out
}

/// The texts of `xs` in a row, with `sep` between each two.
pub open spec fn join(xs: Seq<Seq<char>>, sep: char) -> Seq<char>
    decreases xs.len(),
{
    if xs.len() == 0 {
        Seq::empty()
    } else if xs.len() == 1 {
        xs[0]
    } else {
        xs[0] + seq![sep] + join(xs.skip(1), sep)
    }
}

/// Joining one more text puts it behind a separator, or alone if it is the
/// first.
pub proof fn lemma_join_push(xs: Seq<Seq<char>>, x: Seq<char>, sep: char)
    ensures
        join(xs.push(x), sep) == if xs.len() == 0 {
            x
        } else {
            join(xs, sep) + seq![sep] + x
        },
    decreases xs.len(),
{
    if xs.len() == 0 {
        assert(xs.push(x)[0] == x);
    } else if xs.len() == 1 {
        assert(xs.push(x).skip(1) =~= seq![x]);
        assert(join(seq![x], sep) == x);
    } else {
        lemma_join_push(xs.skip(1), x, sep);
        assert(xs.push(x).skip(1) =~= xs.skip(1).push(x));
        assert(join(xs.push(x), sep) =~= join(xs, sep) + seq![sep] + x);
    }
}

/// The texts of `items` in a row, with `sep` between each two.
pub fn join_with(items: &Vec<Vec<char>>, sep: char) -> (out: Vec<char>)
    ensures
        out@ == join(rows(items@), sep),
{
    let mut out: Vec<char> = Vec::new();
    let mut i: usize = 0;
    assert(rows(items@).take(0) =~= Seq::<Seq<char>>::empty());
    while i < items.len()
        invariant
            i <= items.len(),
            out@ == join(rows(items@).take(i as int), sep),
        decreases items.len() - i,
    {
        proof {
            lemma_join_push(rows(items@).take(i as int), items@[i as int]@, sep);
            assert(rows(items@).take(i + 1) =~= rows(items@).take(i as int).push(
                items@[i as int]@,
            ));
        }
        if i > 0 {
            out.push(sep);
        }
        push_all(&mut out, &items[i]);
        i += 1;
    }
    assert(rows(items@).take(items.len() as int) =~= rows(items@));
    out
}

/// The first position at or after `from` whose character is in `class`, or
/// the length of `s` where there is none.
pub open spec fn find_class(s: Seq<char>, class: CharClass, from: int) -> int
    decreases s.len() - from,
{
    if 0 <= from < s.len() && !in_class(class, s[from]) {
        find_class(s, class, from + 1)
    } else {
        from
    }
}

/// `find_class` stays within the text and passes no character of the class.
pub proof fn lemma_find_class(s: Seq<char>, class: CharClass, from: int)
    requires
        0 <= from <= s.len(),
    ensures
        from <= find_class(s, class, from) <= s.len(),
        forall|k: int| from <= k < find_class(s, class, from) ==> !in_class(class, #[trigger] s[k]),
        find_class(s, class, from) < s.len() ==> in_class(class, s[find_class(s, class, from)]),
    decreases s.len() - from,
{
    if from < s.len() && !in_class(class, s[from]) {
        lemma_find_class(s, class, from + 1);
    }
}

/// The first position at or after `from` whose character is in `class`.
pub fn seek_class(s: &Vec<char>, class: CharClass, from: usize) -> (r: usize)
    requires
        from <= s.len(),
    ensures
        r == find_class(s@, class, from as int),
        from <= r <= s.len(),
{
    let mut i: usize = from;
    while i < s.len() && !class_has(class, s[i])
        invariant
            from <= i <= s.len(),
            find_class(s@, class, from as int) == find_class(s@, class, i as int),
        decreases s.len() - i,
    {
        i += 1;
    }
    i
}

/// The words of `s` from `from` on: its longest runs without white space.
pub open spec fn words_from(s: Seq<char>, from: int) -> Seq<Seq<char>>
    decreases s.len() - from,
{
    let b = skip_class(s, CharClass::Space, from);
    let e = find_class(s, CharClass::Space, b);
    if 0 <= from <= b < e <= s.len() {
        seq![s.subrange(b, e)] + words_from(s, e)
    } else {
        Seq::empty()
    }
}

/// The words of `s`: its longest runs without white space.
pub open spec fn words(s: Seq<char>) -> Seq<Seq<char>> {
    words_from(s, 0)
}

/// The words of `s`: its longest runs without white space.
pub fn split_words(s: &Vec<char>) -> (out: Vec<Vec<char>>)
    ensures
        rows(out@) == words(s@),
{
    let mut out: Vec<Vec<char>> = Vec::new();
    let mut pos: usize = 0;
    let mut done = false;
    assert(rows(out@) + words_from(s@, 0) =~= words(s@));
    while !done
        invariant
            pos <= s.len(),
            !done ==> words(s@) == rows(out@) + words_from(s@, pos as int),
            done ==> rows(out@) == words(s@),
        decreases s.len() - pos + (if done { 0int } else { 1int }),
    {
        let b = skip_over(s, CharClass::Space, pos);
        let ghost before = rows(out@);
        if b < s.len() {
            let e = seek_class(s, CharClass::Space, b);
            proof {
                lemma_skip_class(s@, CharClass::Space, pos as int);
                lemma_find_class(s@, CharClass::Space, b as int);
            }
            assert(b < e);
            let piece = slice_of(s, b, e);
            out.push(piece);
            assert(rows(out@) =~= before.push(piece@));
            assert(words(s@) =~= rows(out@) + words_from(s@, e as int));
            pos = e;
        } else {
            proof {
                lemma_find_class(s@, CharClass::Space, b as int);
            }
            assert(words(s@) =~= rows(out@));
            done = true;
        }
    }
    out
}

/// Whether `s` ends with a line break.
pub open spec fn ends_with_newline(s: Seq<char>) -> bool {
    s.len() > 0 && s.last() == '\n'
}

/// The lines of `s`: what stands between its line breaks. A line break at the
/// very end opens no further line, and the empty text has no line.
pub open spec fn lines_of(s: Seq<char>) -> Seq<Seq<char>> {
    let pieces = split_on(s, '\n');
    if pieces.last().len() == 0 {
        pieces.drop_last()
    } else {
        pieces
    }
}

/// The text whose lines are `xs`. It ends with a line break where `closed`
/// asks for one, and where its last line is empty and could not be told
/// otherwise.
pub open spec fn unlines(xs: Seq<Seq<char>>, closed: bool) -> Seq<char> {
    if xs.len() == 0 {
        Seq::empty()
    } else if closed || xs.last().len() == 0 {
        join(xs, '\n') + seq!['\n']
    } else {
        join(xs, '\n')
    }
}

/// The lines of `s`.
pub fn split_lines(s: &Vec<char>) -> (out: Vec<Vec<char>>)
    ensures
        rows(out@) == lines_of(s@),
{
    let mut out = split(s, '\n');
    let n = out.len();
    let ghost pieces = rows(out@);
    if out[n - 1].len() == 0 {
        out.pop();
        assert(rows(out@) =~= pieces.drop_last());
    }
    out
}

/// The text whose lines are `items`.
pub fn join_lines(items: &Vec<Vec<char>>, closed: bool) -> (out: Vec<char>)
    ensures
        out@ == unlines(rows(items@), closed),
{
    if items.len() == 0 {
        return Vec::new();
    }
    let mut out = join_with(items, '\n');
    if closed || items[items.len() - 1].len() == 0 {
        out.push('\n');
    }
    out
}

/// Whether the words `a` and `b` stand in `s` from `i` on, with white space
/// and nothing else between them.
pub open spec fn pair_at(s: Seq<char>, a: Seq<char>, b: Seq<char>, i: int) -> bool {
    let after = skip_class(s, CharClass::Space, i + a.len());
    has_at(s, a, i) && after > i + a.len() && has_at(s, b, after)
}

/// The first position at or after `from` where `a`, white space and `b`
/// stand in `s`, or -1 where they stand at none.
pub open spec fn first_pair(s: Seq<char>, a: Seq<char>, b: Seq<char>, from: int) -> int
    decreases s.len() - from,
{
    if from < 0 || from >= s.len() {
        -1
    } else if pair_at(s, a, b, from) {
        from
    } else {
        first_pair(s, a, b, from + 1)
    }
}

/// Whether `a`, white space and `b` stand somewhere in `s`.
pub open spec fn has_pair(s: Seq<char>, a: Seq<char>, b: Seq<char>) -> bool {
    first_pair(s, a, b, 0) >= 0
}

/// The position in `s` behind the first `a`, white space and `b`.
pub open spec fn pair_end(s: Seq<char>, a: Seq<char>, b: Seq<char>) -> int {
    skip_class(s, CharClass::Space, first_pair(s, a, b, 0) + a.len()) + b.len()
}

/// `first_pair` finds a place where the pair stands, at or after `from`.
pub proof fn lemma_first_pair(s: Seq<char>, a: Seq<char>, b: Seq<char>, from: int)
    requires
        0 <= from,
    ensures
        first_pair(s, a, b, from) == -1 || (from <= first_pair(s, a, b, from) && pair_at(
            s,
            a,
            b,
            first_pair(s, a, b, from),
        )),
        forall|j: int|
            from <= j && (first_pair(s, a, b, from) == -1 || j < first_pair(s, a, b, from))
                ==> !#[trigger] pair_at(s, a, b, j),
    decreases s.len() - from,
{
    if from >= s.len() {
        assert forall|j: int| from <= j implies !#[trigger] pair_at(s, a, b, j) by {
            if has_at(s, a, j) {
                lemma_skip_class_at_end(s, j + a.len());
            }
        }
    } else if pair_at(s, a, b, from) {
    } else {
        lemma_first_pair(s, a, b, from + 1);
    }
}

/// From the end of a text on, there is nothing to skip.
pub proof fn lemma_skip_class_at_end(s: Seq<char>, from: int)
    requires
        from >= s.len(),
    ensures
        skip_class(s, CharClass::Space, from) == from,
{
}

/// The position in `s` behind the first `a`, white space and `b`, if they
/// stand in it.
pub fn find_pair(s: &Vec<char>, a: &Vec<char>, b: &Vec<char>) -> (r: Option<usize>)
    ensures
        r is Some == has_pair(s@, a@, b@),
        r matches Some(v) ==> v == pair_end(s@, a@, b@) && v <= s.len(),
{
    let mut i: usize = 0;
    while i < s.len()
        invariant
            i <= s.len(),
            first_pair(s@, a@, b@, 0) == first_pair(s@, a@, b@, i as int),
        decreases s.len() - i,
    {
        if matches_at(s, a, i) {
            let after = skip_over(s, CharClass::Space, i + a.len());
            if after > i + a.len() && matches_at(s, b, after) {
                return Some(after + b.len());
            }
        }
        i += 1;
    }
    None
}

/// The character that shows the digit `d`.
pub open spec fn digit(d: int) -> char {
    seq!['0', '1', '2', '3', '4', '5', '6', '7', '8', '9'][d]
}

/// The number `n` written in decimal digits.
pub open spec fn decimal(n: nat) -> Seq<char>
    decreases n,
{
    if n < 10 {
        seq![digit(n as int)]
    } else {
        decimal(n / 10).push(digit((n % 10) as int))
    }
}

/// The character that shows the digit `d`.
fn digit_of(d: usize) -> (c: char)
    requires
        d < 10,
    ensures
        c == digit(d as int),
{
    if d == 0 {
        '0'
    } else if d == 1 {
        '1'
    } else if d == 2 {
        '2'
    } else if d == 3 {
        '3'
    } else if d == 4 {
        '4'
    } else if d == 5 {
        '5'
    } else if d == 6 {
        '6'
    } else if d == 7 {
        '7'
    } else if d == 8 {
        '8'
    } else {
        '9'
    }
}

/// The number `n` written in decimal digits.
pub fn write_decimal(n: usize) -> (out: Vec<char>)
    ensures
        out@ == decimal(n as nat),
    decreases n,
{
    if n < 10 {
        let mut out: Vec<char> = Vec::new();
        out.push(digit_of(n));
        assert(out@ =~= seq![digit(n as int)]);
        out
    } else {
        let mut out = write_decimal(n / 10);
        out.push(digit_of(n % 10));
        out
    }
}

/// Whether two texts hold the same characters.
pub fn same(a: &Vec<char>, b: &Vec<char>) -> (yes: bool)
    ensures
        yes == (a@ == b@),
{
    if a.len() != b.len() {
        return false;
    }
    let yes = matches_at(a, b, 0);
    assert(a@.subrange(0, a.len() as int) =~= a@);
    yes
}

/// Whether two rows of texts hold the same texts in the same order.
pub fn same_rows(a: &Vec<Vec<char>>, b: &Vec<Vec<char>>) -> (yes: bool)
    ensures
        yes == (rows(a@) == rows(b@)),
{
    if a.len() != b.len() {
        assert(rows(a@).len() != rows(b@).len());
        return false;
    }
    let mut i: usize = 0;
    while i < a.len()
        invariant
            i <= a.len(),
            a.len() == b.len(),
            forall|k: int| 0 <= k < i ==> rows(a@)[k] == rows(b@)[k],
        decreases a.len() - i,
    {
        if !same(&a[i], &b[i]) {
            assert(rows(a@)[i as int] != rows(b@)[i as int]);
            return false;
        }
        i += 1;
    }
    assert(rows(a@) =~= rows(b@));
    true
}

/// Whether `s` holds nothing but white space.
pub open spec fn is_blank(s: Seq<char>) -> bool {
    skip_class(s, CharClass::Space, 0) >= s.len()
}

/// Whether `s` holds nothing but white space.
pub fn blank(s: &Vec<char>) -> (yes: bool)
    ensures
        yes == is_blank(s@),
{
    skip_over(s, CharClass::Space, 0) >= s.len()
}

/// `s` without the white space at its end.
pub open spec fn trimmed_end(s: Seq<char>) -> Seq<char> {
    s.take(trim_end_len(s, CharClass::Space))
}

/// `line` without a carriage return at its end.
pub open spec fn without_cr(line: Seq<char>) -> Seq<char> {
    if line.len() > 0 && line.last() == '\r' {
        line.drop_last()
    } else {
        line
    }
}

/// The lines of `s` as they are shown: each line that a line break ends
/// stands without the carriage return before that line break. A last line
/// that no line break ends stands as it is.
pub open spec fn shown_lines(s: Seq<char>) -> Seq<Seq<char>> {
    let ls = lines_of(s);
    Seq::new(
        ls.len(),
        |i: int|
            if i + 1 < ls.len() || ends_with_newline(s) {
                without_cr(ls[i])
            } else {
                ls[i]
            },
    )
}

/// The lines of `s` as they are shown.
pub fn split_shown_lines(s: &Vec<char>) -> (out: Vec<Vec<char>>)
    ensures
        rows(out@) == shown_lines(s@),
{
    let lines = split_lines(s);
    let closed = s.len() > 0 && s[s.len() - 1] == '\n';
    let mut out: Vec<Vec<char>> = Vec::new();
    let mut i: usize = 0;
    while i < lines.len()
        invariant
            i <= lines.len(),
            out.len() == i,
            rows(lines@) == lines_of(s@),
            closed == ends_with_newline(s@),
            forall|k: int| 0 <= k < i ==> (#[trigger] out@[k])@ == shown_lines(s@)[k],
        decreases lines.len() - i,
    {
        let line = &lines[i];
        let n = line.len();
        assert(line@ == lines_of(s@)[i as int]) by {
            assert(rows(lines@)[i as int] == line@);
        }
        let row = if (i + 1 < lines.len() || closed) && n > 0 && line[n - 1] == '\r' {
            let cut = slice_of(line, 0, n - 1);
            assert(cut@ =~= line@.drop_last());
            cut
        } else {
            copy_row(&lines, i)
        };
        out.push(row);
        i += 1;
    }
    assert(rows(out@) =~= shown_lines(s@));
    out
}

} // verus!
