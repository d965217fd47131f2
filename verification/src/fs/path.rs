use vstd::prelude::*;
use vstd::string::*;

verus! {

/// The pieces of `s` between occurrences of `sep`, as `str::split` gives
/// them: `n` separators give `n + 1` pieces, some of which may be empty.
pub open spec fn split_chars(s: Seq<char>, sep: char) -> Seq<Seq<char>>
    decreases s.len(),
{
    if s.len() == 0 {
        seq![Seq::<char>::empty()]
    } else {
        let init = split_chars(s.drop_last(), sep);
        if s.last() == sep {
            init.push(Seq::<char>::empty())
        } else {
            init.update(init.len() - 1, init.last().push(s.last()))
        }
    }
}

/// Splitting always gives at least one piece.
pub proof fn lemma_split_nonempty(s: Seq<char>, sep: char)
    ensures
        split_chars(s, sep).len() >= 1,
    decreases s.len(),
{
    if s.len() > 0 {
        lemma_split_nonempty(s.drop_last(), sep);
    }
}

/// How many times `c` occurs in `s`.
pub open spec fn count_char(s: Seq<char>, c: char) -> nat
    decreases s.len(),
{
    if s.len() == 0 {
        0
    } else {
        count_char(s.drop_last(), c) + if s.last() == c {
            1nat
        } else {
            0nat
        }
    }
}

/// The pieces put back together with `sep` between each two.
pub open spec fn join_with(pieces: Seq<Seq<char>>, sep: char) -> Seq<char>
    decreases pieces.len(),
{
    if pieces.len() == 0 {
        Seq::empty()
    } else if pieces.len() == 1 {
        pieces[0]
    } else {
        join_with(pieces.drop_last(), sep) + seq![sep] + pieces.last()
    }
}

/// Splitting cuts at every separator and nowhere else: there is one piece
/// more than separators, no piece holds a separator, and joining the pieces
/// with the separator gives back the string.
pub proof fn law_split_cuts_at_every_separator(s: Seq<char>, sep: char)
    ensures
        split_chars(s, sep).len() == count_char(s, sep) + 1,
        forall|i: int, j: int|
            0 <= i < split_chars(s, sep).len() && 0 <= j < split_chars(s, sep)[i].len() ==> #[trigger] split_chars(
                s,
                sep,
            )[i][j] != sep,
        join_with(split_chars(s, sep), sep) == s,
    decreases s.len(),
{
    if s.len() == 0 {
        assert(join_with(split_chars(s, sep), sep) =~= s);
    } else {
        let init = split_chars(s.drop_last(), sep);
        law_split_cuts_at_every_separator(s.drop_last(), sep);
        let r = split_chars(s, sep);
        if s.last() == sep {
            assert(r == init.push(Seq::<char>::empty()));
            assert(r.drop_last() =~= init);
            assert(join_with(r, sep) =~= s);
        } else {
            let n = init.len();
            assert(r == init.update(n - 1, init.last().push(s.last())));
            assert forall|i: int, j: int| 0 <= i < r.len() && 0 <= j < r[i].len() implies #[trigger] r[i][j]
                != sep by {
                if i == n - 1 && j == r[i].len() - 1 {
                } else if i == n - 1 {
                    assert(r[i][j] == init[i][j]);
                } else {
                    assert(r[i] == init[i]);
                }
            }
            if n == 1 {
                assert(join_with(init, sep) == init[0]);
                assert(join_with(r, sep) =~= s);
            } else {
                assert(r.drop_last() =~= init.drop_last());
                assert(join_with(r, sep) == join_with(init.drop_last(), sep) + seq![sep] + init.last().push(s.last()));
                assert(join_with(init, sep) == join_with(init.drop_last(), sep) + seq![sep] + init.last());
                assert(join_with(r, sep) =~= join_with(init, sep).push(s.last()));
                assert(s =~= s.drop_last().push(s.last()));
            }
        }
    }
}

/// Whether `s` begins with `prefix`.
pub open spec fn has_prefix(s: Seq<char>, prefix: Seq<char>) -> bool {
    prefix.len() <= s.len() && s.subrange(0, prefix.len() as int) == prefix
}

/// The pieces of `path` between the `/` separators, in order, as
/// `path.split('/')` yields them.
pub fn split_path(path: &str) -> (parts: Vec<String>)
    ensures
        parts@.map_values(|p: String| p@) == split_chars(path@, '/'),
{
    let n = path.unicode_len();
    let mut parts: Vec<String> = Vec::new();
    let mut start: usize = 0;
    let mut i: usize = 0;
    assert(path@.subrange(0, 0) =~= Seq::<char>::empty());
    assert(parts@.map_values(|p: String| p@) =~= Seq::<Seq<char>>::empty());
    while i < n
        invariant
            n == path@.len(),
            start <= i <= n,
            split_chars(path@.subrange(0, i as int), '/') == parts@.map_values(
                |p: String| p@,
            ).push(path@.subrange(start as int, i as int)),
        decreases n - i,
    {
        let c = path.get_char(i);
        let ghost before = parts@.map_values(|p: String| p@);
        let ghost old_start = start;
        let ghost prefix = path@.subrange(0, i + 1);
        assert(prefix.drop_last() == path@.subrange(0, i as int));
        assert(prefix.last() == c);
        if c == '/' {
            let piece = path.substring_char(start, i).to_owned();
            parts.push(piece);
            start = i + 1;
            assert(parts@.map_values(|p: String| p@) == before.push(
                path@.subrange(old_start as int, i as int),
            ));
            assert(path@.subrange(start as int, i + 1) == Seq::<char>::empty());
        } else {
            assert(path@.subrange(old_start as int, i as int).push(c) == path@.subrange(
                old_start as int,
                i + 1,
            ));
        }
        i = i + 1;
    }
    assert(path@.subrange(0, n as int) == path@);
    let last = path.substring_char(start, n).to_owned();
    parts.push(last);
    parts
}

/// Whether `s` begins with `prefix`, as `str::starts_with` answers.
pub fn starts_with(s: &str, prefix: &str) -> (r: bool)
    ensures
        r == has_prefix(s@, prefix@),
{
    let n = s.unicode_len();
    let m = prefix.unicode_len();
    if m > n {
        return false;
    }
    let mut i: usize = 0;
    while i < m
        invariant
            n == s@.len(),
            m == prefix@.len(),
            m <= n,
            i <= m,
            forall|j: int| 0 <= j < i ==> s@[j] == prefix@[j],
        decreases m - i,
    {
        if s.get_char(i) != prefix.get_char(i) {
            assert(s@.subrange(0, m as int)[i as int] != prefix@[i as int]);
            return false;
        }
        i = i + 1;
    }
    assert(s@.subrange(0, m as int) =~= prefix@);
    true
}

/// Whether `a` and `b` hold the same characters.
pub fn same_chars(a: &str, b: &str) -> (r: bool)
    ensures
        r == (a@ == b@),
{
    if a.unicode_len() != b.unicode_len() {
        return false;
    }
    let r = starts_with(a, b);
    assert(a@ =~= a@.subrange(0, a@.len() as int));
    r
}

} // verus!
