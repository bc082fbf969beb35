//! Sequences of characters: the vocabulary in which the grammar of a script
//! is stated, and the routines that compute it on slices.

use vstd::prelude::*;
use vstd::slice::slice_subrange;
use vstd::slice::slice_to_vec;

verus! {

/// Whether `c` is white space: the code points that Unicode gives the
/// property `White_Space`.
pub open spec fn is_space(c: char) -> bool {
    let n = c as u32;
    ||| 0x09 <= n <= 0x0D
    ||| n == 0x20
    ||| n == 0x85
    ||| n == 0xA0
    ||| n == 0x1680
    ||| 0x2000 <= n <= 0x200A
    ||| n == 0x2028
    ||| n == 0x2029
    ||| n == 0x202F
    ||| n == 0x205F
    ||| n == 0x3000
}

/// How many characters of white space `s` begins with.
pub open spec fn leading_spaces(s: Seq<char>) -> nat
    decreases s.len(),
{
    if s.len() > 0 && is_space(s[0]) {
        1 + leading_spaces(s.skip(1))
    } else {
        0
    }
}

/// How many characters of white space `s` ends with.
pub open spec fn trailing_spaces(s: Seq<char>) -> nat
    decreases s.len(),
{
    if s.len() > 0 && is_space(s.last()) {
        1 + trailing_spaces(s.drop_last())
    } else {
        0
    }
}

/// `s` without the white space at its start.
pub open spec fn trim_start(s: Seq<char>) -> Seq<char> {
    s.skip(leading_spaces(s) as int)
}

/// `s` without the white space at its end.
pub open spec fn trim_end(s: Seq<char>) -> Seq<char> {
    s.take(s.len() - trailing_spaces(s))
}

/// `s` without the white space at either end.
pub open spec fn trim(s: Seq<char>) -> Seq<char> {
    trim_end(trim_start(s))
}

/// The index of the first `c` in `s`, or the length of `s` where it holds none.
pub open spec fn position(s: Seq<char>, c: char) -> int
    decreases s.len(),
{
    if s.len() == 0 || s[0] == c {
        0
    } else {
        1 + position(s.skip(1), c)
    }
}

/// `s` cut at its first `c`: what stands before it and what stands after it.
pub open spec fn split_once(s: Seq<char>, c: char) -> Option<(Seq<char>, Seq<char>)> {
    let at = position(s, c);
    if at < s.len() {
        Some((s.take(at), s.skip(at + 1)))
    } else {
        None
    }
}

/// The pieces of `s` between its occurrences of `c`. There is always at
/// least one piece; pieces may be empty.
pub open spec fn split(s: Seq<char>, c: char) -> Seq<Seq<char>>
    decreases s.len(),
{
    let at = position(s, c);
    if 0 <= at < s.len() {
        seq![s.take(at)] + split(s.skip(at + 1), c)
    } else {
        seq![s]
    }
}

/// The lines of `s`: its pieces between line feeds, where a line feed at the
/// very end opens no further line.
pub open spec fn lines(s: Seq<char>) -> Seq<Seq<char>>
    decreases s.len(),
{
    let at = position(s, '\n');
    if s.len() == 0 {
        Seq::empty()
    } else if 0 <= at < s.len() {
        seq![s.take(at)] + lines(s.skip(at + 1))
    } else {
        seq![s]
    }
}

/// The lines of `s`, each without the white space at its ends.
pub open spec fn trimmed_lines(s: Seq<char>) -> Seq<Seq<char>> {
    lines(s).map_values(|l: Seq<char>| trim(l))
}

/// What follows `prefix` in `s`, where `s` begins with it.
pub open spec fn strip_prefix(s: Seq<char>, prefix: Seq<char>) -> Option<Seq<char>> {
    if prefix.is_prefix_of(s) {
        Some(s.skip(prefix.len() as int))
    } else {
        None
    }
}

/// What precedes the final `c` of `s`, where `s` ends with `c`.
pub open spec fn strip_last(s: Seq<char>, c: char) -> Option<Seq<char>> {
    if s.len() > 0 && s.last() == c {
        Some(s.drop_last())
    } else {
        None
    }
}

/// How many times `c` is repeated at the end of `s`.
pub open spec fn trailing_run(s: Seq<char>, c: char) -> nat
    decreases s.len(),
{
    if s.len() > 0 && s.last() == c {
        1 + trailing_run(s.drop_last(), c)
    } else {
        0
    }
}

/// `s` without the run of `c` at its end.
pub open spec fn trim_end_matches(s: Seq<char>, c: char) -> Seq<char> {
    s.take(s.len() - trailing_run(s, c))
}

/// The views of the slices in `pieces`, in order.
pub open spec fn slices_view(pieces: Seq<&[char]>) -> Seq<Seq<char>> {
    Seq::new(pieces.len(), |i: int| pieces[i]@)
}

/// The views of the vectors in `rows`, in order.
pub open spec fn rows_view(rows: Seq<Vec<char>>) -> Seq<Seq<char>> {
    Seq::new(rows.len(), |i: int| rows[i]@)
}

/// The white space at the start of `s` is part of `s`.
pub proof fn lemma_leading_spaces_bound(s: Seq<char>)
    ensures
        leading_spaces(s) <= s.len(),
    decreases s.len(),
{
    if s.len() > 0 && is_space(s[0]) {
        lemma_leading_spaces_bound(s.skip(1));
    }
}

/// The white space at the end of `s` is part of `s`.
pub proof fn lemma_trailing_spaces_bound(s: Seq<char>)
    ensures
        trailing_spaces(s) <= s.len(),
    decreases s.len(),
{
    if s.len() > 0 && is_space(s.last()) {
        lemma_trailing_spaces_bound(s.drop_last());
    }
}

/// The white space at the start of `s` is white space, and what follows it
/// is none.
pub proof fn lemma_leading_spaces(s: Seq<char>)
    ensures
        forall|i: int| 0 <= i < leading_spaces(s) ==> is_space(s[i]),
        leading_spaces(s) < s.len() ==> !is_space(s[leading_spaces(s) as int]),
    decreases s.len(),
{
    lemma_leading_spaces_bound(s);
    if s.len() > 0 && is_space(s[0]) {
        let rest = s.skip(1);
        lemma_leading_spaces(rest);
        lemma_leading_spaces_bound(rest);
        assert forall|i: int| 0 <= i < leading_spaces(s) implies is_space(s[i]) by {
            if i > 0 {
                assert(rest[i - 1] == s[i]);
            }
        }
        if leading_spaces(s) < s.len() {
            assert(rest[leading_spaces(rest) as int] == s[leading_spaces(s) as int]);
        }
    }
}

/// The white space at the end of `s` is white space, and what precedes it
/// is none.
pub proof fn lemma_trailing_spaces(s: Seq<char>)
    ensures
        forall|i: int| s.len() - trailing_spaces(s) <= i < s.len() ==> is_space(s[i]),
        trailing_spaces(s) < s.len() ==> !is_space(s[s.len() - trailing_spaces(s) - 1]),
    decreases s.len(),
{
    lemma_trailing_spaces_bound(s);
    if s.len() > 0 && is_space(s.last()) {
        let rest = s.drop_last();
        lemma_trailing_spaces(rest);
        lemma_trailing_spaces_bound(rest);
        assert forall|i: int| s.len() - trailing_spaces(s) <= i < s.len() implies is_space(
            s[i],
        ) by {
            if i < s.len() - 1 {
                assert(rest[i] == s[i]);
            }
        }
        if trailing_spaces(s) < s.len() {
            assert(rest[rest.len() - trailing_spaces(rest) - 1] == s[s.len() - trailing_spaces(s)
                - 1]);
        }
    }
}

/// Trimming takes away white space and nothing else: `trim(s)` is the part
/// of `s` between two places, all before the first and all from the second
/// on is white space, and where the part is not empty it neither begins nor
/// ends with white space.
pub proof fn lemma_trim(s: Seq<char>)
    ensures
        leading_spaces(s) + trim(s).len() <= s.len(),
        trim(s) == s.subrange(
            leading_spaces(s) as int,
            (leading_spaces(s) + trim(s).len()) as int,
        ),
        forall|i: int| 0 <= i < leading_spaces(s) ==> is_space(s[i]),
        forall|i: int| leading_spaces(s) + trim(s).len() <= i < s.len() ==> is_space(s[i]),
        trim(s).len() > 0 ==> !is_space(trim(s)[0]) && !is_space(trim(s).last()),
{
    let a = leading_spaces(s) as int;
    let rest = trim_start(s);
    lemma_leading_spaces_bound(s);
    lemma_leading_spaces(s);
    lemma_trailing_spaces_bound(rest);
    lemma_trailing_spaces(rest);
    let kept = rest.len() - trailing_spaces(rest);
    assert(trim(s) =~= s.subrange(a, a + kept));
    assert forall|i: int| a + kept <= i < s.len() implies is_space(s[i]) by {
        assert(rest[i - a] == s[i]);
    }
    if kept > 0 {
        assert(trim(s)[0] == s[a]);
        assert(trim(s).last() == rest[kept - 1]);
    }
}

/// `position` names the first occurrence: it lies within `s` or at its end,
/// nothing before it is `c`, and where it lies within `s` it holds `c`.
pub proof fn lemma_position(s: Seq<char>, c: char)
    ensures
        0 <= position(s, c) <= s.len(),
        position(s, c) < s.len() ==> s[position(s, c)] == c,
        forall|i: int| 0 <= i < position(s, c) ==> s[i] != c,
    decreases s.len(),
{
    if s.len() == 0 || s[0] == c {
    } else {
        lemma_position(s.skip(1), c);
        assert forall|i: int| 0 <= i < position(s, c) implies s[i] != c by {
            if i > 0 {
                assert(s.skip(1)[i - 1] == s[i]);
            }
        }
    }
}

/// Whether `c` is white space.
pub fn is_whitespace(c: char) -> (r: bool)
    ensures
        r == is_space(c),
{
    let n: u32 = c as u32;
    (0x09 <= n && n <= 0x0D) || n == 0x20 || n == 0x85 || n == 0xA0 || n == 0x1680 || (0x2000 <= n
        && n <= 0x200A) || n == 0x2028 || n == 0x2029 || n == 0x202F || n == 0x205F || n == 0x3000
}

/// The part of `s` between the white space at its ends.
pub fn trimmed(s: &[char]) -> (r: &[char])
    ensures
        r@ == trim(s@),
{
    let n = s.len();
    let mut a: usize = 0;
    assert(s@.skip(0) =~= s@);
    while a < n && is_whitespace(s[a])
        invariant
            a <= n,
            n == s@.len(),
            leading_spaces(s@) == a + leading_spaces(s@.skip(a as int)),
        decreases n - a,
    {
        proof {
            assert(s@.skip(a as int).skip(1) =~= s@.skip(a + 1));
        }
        a += 1;
    }
    let ghost rest = s@.skip(a as int);
    assert(leading_spaces(rest) == 0);
    assert(rest == trim_start(s@));
    let mut b: usize = n;
    while b > a && is_whitespace(s[b - 1])
        invariant
            a <= b <= n,
            n == s@.len(),
            rest == s@.skip(a as int),
            trailing_spaces(rest) == (n - b) + trailing_spaces(s@.subrange(a as int, b as int)),
        decreases b - a,
    {
        proof {
            assert(s@.subrange(a as int, b as int).drop_last() =~= s@.subrange(
                a as int,
                b - 1,
            ));
        }
        b -= 1;
    }
    proof {
        assert(rest =~= s@.subrange(a as int, n as int));
        assert(trailing_spaces(s@.subrange(a as int, b as int)) == 0);
        assert(rest.take(rest.len() - trailing_spaces(rest)) =~= s@.subrange(a as int, b as int));
    }
    slice_subrange(s, a, b)
}

/// The index of the first `c` in `s`, or the length of `s`.
pub fn find(s: &[char], c: char) -> (at: usize)
    ensures
        at == position(s@, c),
        at <= s@.len(),
{
    let n = s.len();
    let mut i: usize = 0;
    assert(s@.skip(0) =~= s@);
    while i < n && s[i] != c
        invariant
            i <= n,
            n == s@.len(),
            position(s@, c) == i + position(s@.skip(i as int), c),
        decreases n - i,
    {
        proof {
            assert(s@.skip(i as int).skip(1) =~= s@.skip(i + 1));
        }
        i += 1;
    }
    i
}

/// Cuts `s` at its first `c`.
pub fn cut_once(s: &[char], c: char) -> (r: Option<(&[char], &[char])>)
    ensures
        match r {
            Some((before, after)) => split_once(s@, c) == Some((before@, after@)),
            None => split_once(s@, c) is None,
        },
{
    let at = find(s, c);
    if at < s.len() {
        let before = slice_subrange(s, 0, at);
        let after = slice_subrange(s, at + 1, s.len());
        Some((before, after))
    } else {
        None
    }
}

/// The pieces of `s` between its occurrences of `c`.
pub fn pieces(s: &[char], c: char) -> (out: Vec<&[char]>)
    ensures
        slices_view(out@) == split(s@, c),
{
    let n = s.len();
    let mut out: Vec<&[char]> = Vec::new();
    let mut start: usize = 0;
    proof {
        assert(s@.skip(0) =~= s@);
        assert(slices_view(out@) + split(s@, c) =~= split(s@, c));
    }
    loop
        invariant_except_break
            start <= n,
            n == s@.len(),
            split(s@, c) == slices_view(out@) + split(s@.skip(start as int), c),
        ensures
            slices_view(out@) == split(s@, c),
        decreases n - start,
    {
        let rest = slice_subrange(s, start, n);
        let at = find(rest, c);
        let piece = slice_subrange(rest, 0, at);
        let ghost before = out@;
        out.push(piece);
        proof {
            assert(slices_view(out@) =~= slices_view(before) + seq![piece@]);
        }
        if at < rest.len() {
            proof {
                assert(rest@.skip(at + 1) =~= s@.skip(start + at + 1));
            }
            start = start + at + 1;
        } else {
            proof {
                assert(piece@ =~= rest@);
            }
            break ;
        }
    }
    out
}

/// The lines of `s`, each trimmed and copied.
pub fn split_trimmed_lines(s: &[char]) -> (out: Vec<Vec<char>>)
    ensures
        rows_view(out@) == trimmed_lines(s@),
{
    let n = s.len();
    let mut out: Vec<Vec<char>> = Vec::new();
    let mut start: usize = 0;
    assert(s@.skip(0) =~= s@);
    while start < n
        invariant
            start <= n,
            n == s@.len(),
            trimmed_lines(s@) =~= rows_view(out@) + trimmed_lines(s@.skip(start as int)),
        decreases n - start,
    {
        let rest = slice_subrange(s, start, n);
        let at = find(rest, '\n');
        let line = slice_subrange(rest, 0, at);
        let row = slice_to_vec(trimmed(line));
        let ghost before = out@;
        out.push(row);
        proof {
            assert(rows_view(out@) =~= rows_view(before) + seq![trim(line@)]);
            if at < rest.len() {
                assert(rest@.skip(at + 1) =~= s@.skip(start + at + 1));
                assert(lines(rest@) == seq![line@] + lines(rest@.skip(at + 1)));
            } else {
                assert(line@ =~= rest@);
                assert(lines(rest@) == seq![line@]);
                assert(s@.skip(n as int).len() == 0);
                assert(lines(s@.skip(n as int)) =~= Seq::<Seq<char>>::empty());
            }
        }
        if at < rest.len() {
            start = start + at + 1;
        } else {
            start = n;
        }
    }
    proof {
        assert(s@.skip(n as int).len() == 0);
        assert(trimmed_lines(s@.skip(n as int)) =~= Seq::<Seq<char>>::empty());
    }
    out
}

/// Whether `s` begins with the characters of `prefix`.
pub fn starts_with(s: &[char], prefix: &str) -> (r: bool)
    ensures
        r == prefix@.is_prefix_of(s@),
{
    let n = s.len();
    let mut i: usize = 0;
    for c in it: prefix.chars()
        invariant
            it.seq() == prefix@,
            i == it.index(),
            i <= n,
            n == s@.len(),
            s@.take(i as int) == prefix@.take(i as int),
    {
        if i >= n || s[i] != c {
            proof {
                if prefix@.is_prefix_of(s@) {
                    assert(s@.subrange(0, prefix@.len() as int)[i as int] == prefix@[i as int]);
                }
            }
            return false;
        }
        proof {
            assert(s@.take(i + 1) =~= s@.take(i as int).push(s@[i as int]));
            assert(prefix@.take(i + 1) =~= prefix@.take(i as int).push(prefix@[i as int]));
        }
        i += 1;
    }
    proof {
        assert(prefix@.take(i as int) =~= prefix@);
    }
    true
}

/// What follows `prefix` in `s`, where `s` begins with it.
pub fn without_prefix<'a>(s: &'a [char], prefix: &str) -> (r: Option<&'a [char]>)
    ensures
        match r {
            Some(rest) => strip_prefix(s@, prefix@) == Some(rest@),
            None => strip_prefix(s@, prefix@) is None,
        },
{
    if starts_with(s, prefix) {
        let k = prefix.unicode_len();
        Some(slice_subrange(s, k, s.len()))
    } else {
        None
    }
}

/// Whether `s` holds exactly the characters of `word`.
pub fn is_word(s: &[char], word: &str) -> (r: bool)
    ensures
        r == (s@ == word@),
{
    if starts_with(s, word) {
        let k = word.unicode_len();
        proof {
            if k == s.len() {
                assert(s@.subrange(0, k as int) =~= s@);
            }
        }
        k == s.len()
    } else {
        proof {
            if s@ == word@ {
                assert(s@.subrange(0, s@.len() as int) =~= s@);
            }
        }
        false
    }
}

/// What precedes the final `c` of `s`, where `s` ends with `c`.
pub fn without_last(s: &[char], c: char) -> (r: Option<&[char]>)
    ensures
        match r {
            Some(rest) => strip_last(s@, c) == Some(rest@),
            None => strip_last(s@, c) is None,
        },
{
    let n = s.len();
    if n > 0 && s[n - 1] == c {
        Some(slice_subrange(s, 0, n - 1))
    } else {
        None
    }
}

/// `s` without the run of `c` at its end.
pub fn without_trailing(s: &[char], c: char) -> (r: &[char])
    ensures
        r@ == trim_end_matches(s@, c),
{
    let n = s.len();
    let mut b: usize = n;
    assert(s@.take(n as int) =~= s@);
    while b > 0 && s[b - 1] == c
        invariant
            b <= n,
            n == s@.len(),
            trailing_run(s@, c) == (n - b) + trailing_run(s@.take(b as int), c),
        decreases b,
    {
        proof {
            assert(s@.take(b as int).drop_last() =~= s@.take(b - 1));
        }
        b -= 1;
    }
    proof {
        assert(s@.take(n as int) =~= s@);
    }
    slice_subrange(s, 0, b)
}

} // verus!
