//! Verified character-sequence utilities: substring search, suffix/prefix
//! around the last occurrence of a separator, character removal, line
//! splitting and lexicographic comparison. These carry the string-level
//! logic of the pipeline (path handling and tool-report parsing).

use vstd::prelude::*;

verus! {

/// The pattern `p` occurs in `s` at position `i`.
pub open spec fn match_at(s: Seq<char>, p: Seq<char>, i: int) -> bool {
    0 <= i && i + p.len() <= s.len() && s.subrange(i, i + p.len() as int) == p
}

/// The pattern `p` occurs somewhere in `s`.
pub open spec fn contains_sub(s: Seq<char>, p: Seq<char>) -> bool {
    exists|i: int| match_at(s, p, i)
}

/// A pattern found in `s` is still found after any prefix is prepended.
pub proof fn lemma_contains_after_prepend(s: Seq<char>, p: Seq<char>, pre: Seq<char>)
    requires
        contains_sub(s, p),
    ensures
        contains_sub(pre + s, p),
{
    let i = choose|i: int| match_at(s, p, i);
    assert((pre + s).subrange(pre.len() + i, pre.len() + i + p.len()) =~= s.subrange(
        i,
        i + p.len(),
    ));
    assert(match_at(pre + s, p, pre.len() + i));
}

/// `s` ends with `p`.
pub open spec fn ends_with_seq(s: Seq<char>, p: Seq<char>) -> bool {
    p.len() <= s.len() && s.subrange(s.len() - p.len(), s.len() as int) == p
}

/// Compares `p` against the characters of `s` starting at `i`.
fn eq_range(s: &str, p: &str, i: usize) -> (r: bool)
    requires
        i + p@.len() <= s@.len(),
    ensures
        r == match_at(s@, p@, i as int),
{
    let n = s.unicode_len();
    let m = p.unicode_len();
    let mut j: usize = 0;
    while j < m
        invariant
            j <= m,
            n == s@.len(),
            m == p@.len(),
            i + m <= n,
            forall|k: int| 0 <= k < j ==> s@[i + k] == p@[k],
        decreases m - j,
    {
        if s.get_char(i + j) != p.get_char(j) {
            assert(s@.subrange(i as int, i + p@.len() as int) != p@) by {
                assert(s@.subrange(i as int, i + p@.len() as int)[j as int] == s@[i + j]);
            }
            return false;
        }
        j += 1;
    }
    assert(s@.subrange(i as int, i + p@.len() as int) =~= p@);
    true
}

/// Substring search: does `s` contain `p`?
pub fn str_has_sub(s: &str, p: &str) -> (r: bool)
    ensures
        r == contains_sub(s@, p@),
{
    let n = s.unicode_len();
    let m = p.unicode_len();
    if m > n {
        assert(forall|i: int| !match_at(s@, p@, i));
        return false;
    }
    if m == 0 {
        assert(match_at(s@, p@, 0)) by {
            assert(s@.subrange(0, 0) =~= p@);
        }
        return true;
    }
    let mut i: usize = 0;
    while i <= n - m
        invariant
            n == s@.len(),
            m == p@.len(),
            1 <= m <= n,
            i <= n - m + 1,
            forall|k: int| 0 <= k < i ==> !match_at(s@, p@, k),
        decreases n - m + 1 - i,
    {
        if eq_range(s, p, i) {
            return true;
        }
        i += 1;
    }
    assert(forall|k: int| !match_at(s@, p@, k)) by {
        assert(forall|k: int| match_at(s@, p@, k) ==> 0 <= k <= n - m);
    }
    false
}

/// Does `s` end with `p`?
pub fn str_ends_with(s: &str, p: &str) -> (r: bool)
    ensures
        r == ends_with_seq(s@, p@),
{
    let n = s.unicode_len();
    let m = p.unicode_len();
    if m > n {
        return false;
    }
    eq_range(s, p, n - m)
}

/// Character-wise string equality, usable where the contracts speak of views.
pub fn str_eq(a: &str, b: &str) -> (r: bool)
    ensures
        r == (a@ == b@),
{
    let n = a.unicode_len();
    let m = b.unicode_len();
    if n != m {
        return false;
    }
    let r = eq_range(a, b, 0);
    proof {
        assert(a@.subrange(0, a@.len() as int) =~= a@);
    }
    r
}

/// The characters after the last occurrence of `c`; all of `s` when `c`
/// does not occur.
pub open spec fn suffix_after_last(s: Seq<char>, c: char) -> Seq<char>
    decreases s.len(),
{
    if s.len() == 0 {
        s
    } else if s.last() == c {
        Seq::<char>::empty()
    } else {
        suffix_after_last(s.drop_last(), c).push(s.last())
    }
}

/// The characters before the last occurrence of `c`; empty when `c` does
/// not occur.
pub open spec fn prefix_before_last(s: Seq<char>, c: char) -> Seq<char>
    decreases s.len(),
{
    if s.len() == 0 {
        s
    } else if s.last() == c {
        s.drop_last()
    } else {
        prefix_before_last(s.drop_last(), c)
    }
}

proof fn lemma_last_occurrence(s: Seq<char>, c: char, k: int)
    requires
        0 <= k < s.len(),
        s[k] == c,
        forall|j: int| k < j < s.len() ==> s[j] != c,
    ensures
        suffix_after_last(s, c) =~= s.subrange(k + 1, s.len() as int),
        prefix_before_last(s, c) =~= s.subrange(0, k),
    decreases s.len(),
{
    if k == s.len() - 1 {
        assert(s.last() == c);
    } else {
        assert(s.last() != c);
        lemma_last_occurrence(s.drop_last(), c, k);
        assert(suffix_after_last(s.drop_last(), c) =~= s.drop_last().subrange(
            k + 1,
            s.len() - 1,
        ));
        assert(s.drop_last().subrange(k + 1, s.len() - 1).push(s.last()) =~= s.subrange(
            k + 1,
            s.len() as int,
        ));
        assert(s.drop_last().subrange(0, k) =~= s.subrange(0, k));
    }
}

proof fn lemma_no_occurrence(s: Seq<char>, c: char)
    requires
        forall|j: int| 0 <= j < s.len() ==> s[j] != c,
    ensures
        suffix_after_last(s, c) =~= s,
        prefix_before_last(s, c) =~= Seq::<char>::empty(),
    decreases s.len(),
{
    if s.len() > 0 {
        lemma_no_occurrence(s.drop_last(), c);
        assert(suffix_after_last(s.drop_last(), c).push(s.last()) =~= s);
    }
}

/// Returns the characters of `s` after the last occurrence of `c`
/// (all of `s` when `c` does not occur).
pub fn suffix_after_last_char(s: &str, c: char) -> (r: String)
    ensures
        r@ == suffix_after_last(s@, c),
{
    let n = s.unicode_len();
    let mut i: usize = n;
    while i > 0
        invariant
            i <= n,
            n == s@.len(),
            forall|j: int| i <= j < n ==> s@[j] != c,
        decreases i,
    {
        if s.get_char(i - 1) == c {
            proof {
                lemma_last_occurrence(s@, c, i - 1);
            }
            return s.substring_char(i, n).to_owned();
        }
        i -= 1;
    }
    proof {
        lemma_no_occurrence(s@, c);
    }
    s.to_owned()
}

/// Returns the characters of `s` before the last occurrence of `c`
/// (empty when `c` does not occur).
pub fn prefix_before_last_char(s: &str, c: char) -> (r: String)
    ensures
        r@ == prefix_before_last(s@, c),
{
    let n = s.unicode_len();
    let mut i: usize = n;
    while i > 0
        invariant
            i <= n,
            n == s@.len(),
            forall|j: int| i <= j < n ==> s@[j] != c,
        decreases i,
    {
        if s.get_char(i - 1) == c {
            proof {
                lemma_last_occurrence(s@, c, i - 1);
            }
            return s.substring_char(0, i - 1).to_owned();
        }
        i -= 1;
    }
    proof {
        lemma_no_occurrence(s@, c);
    }
    String::new()
}

/// Keeps every character other than `c`.
pub open spec fn not_char(c: char) -> spec_fn(char) -> bool {
    |x: char| x != c
}

/// `s` with every occurrence of `c` removed.
pub open spec fn removed(s: Seq<char>, c: char) -> Seq<char> {
    s.filter(not_char(c))
}

/// Relies on std's `String::push`: appends one character to the string.
#[verifier::external_body]
fn push_char(s: &mut String, c: char)
    ensures
        final(s)@ == old(s)@.push(c),
{
    s.push(c);
}

proof fn lemma_filter_push<A>(s: Seq<A>, pred: spec_fn(A) -> bool, x: A)
    ensures
        s.push(x).filter(pred) == if pred(x) {
            s.filter(pred).push(x)
        } else {
            s.filter(pred)
        },
{
    reveal(Seq::filter);
    assert(s.push(x).drop_last() =~= s);
    assert(s.push(x).last() == x);
}

/// Returns `s` with every occurrence of `c` removed.
pub fn remove_char(s: &str, c: char) -> (r: String)
    ensures
        r@ == removed(s@, c),
{
    let n = s.unicode_len();
    let mut out = String::new();
    let mut i: usize = 0;
    while i < n
        invariant
            i <= n,
            n == s@.len(),
            out@ == removed(s@.take(i as int), c),
        decreases n - i,
    {
        let ch = s.get_char(i);
        proof {
            assert(s@.take(i + 1).drop_last() =~= s@.take(i as int));
            lemma_filter_push(s@.take(i as int), not_char(c), ch);
            assert(not_char(c)(ch) == (ch != c));
            assert(s@.take(i as int).push(ch) =~= s@.take(i + 1));
        }
        if ch != c {
            push_char(&mut out, ch);
        }
        i += 1;
    }
    proof {
        assert(s@.take(n as int) =~= s@);
    }
    out
}

/// Index of the first occurrence of `c` in `s`, or `s.len()` when absent.
pub open spec fn first_idx(s: Seq<char>, c: char) -> int
    decreases s.len(),
{
    if s.len() == 0 {
        0
    } else if s[0] == c {
        0
    } else {
        1 + first_idx(s.drop_first(), c)
    }
}

pub proof fn lemma_first_idx(s: Seq<char>, c: char)
    ensures
        0 <= first_idx(s, c) <= s.len(),
        first_idx(s, c) < s.len() ==> s[first_idx(s, c)] == c,
        forall|j: int| 0 <= j < first_idx(s, c) ==> s[j] != c,
    decreases s.len(),
{
    if s.len() > 0 && s[0] != c {
        lemma_first_idx(s.drop_first(), c);
        let fi = first_idx(s, c);
        assert(fi < s.len() ==> s[fi] == s.drop_first()[fi - 1]);
        assert forall|j: int| 0 <= j < fi implies s[j] != c by {
            if j > 0 {
                assert(s[j] == s.drop_first()[j - 1]);
            }
        }
    }
}

pub proof fn lemma_first_occurrence(s: Seq<char>, c: char, k: int)
    requires
        0 <= k <= s.len(),
        k < s.len() ==> s[k] == c,
        forall|j: int| 0 <= j < k ==> s[j] != c,
    ensures
        first_idx(s, c) == k,
    decreases s.len(),
{
    if s.len() > 0 && s[0] != c {
        lemma_first_occurrence(s.drop_first(), c, k - 1);
    }
}

/// A line with a trailing carriage return removed.
pub open spec fn strip_cr(s: Seq<char>) -> Seq<char> {
    if s.len() > 0 && s.last() == '\r' {
        s.drop_last()
    } else {
        s
    }
}

/// The first line of `s`: the characters before the first newline, with a
/// trailing carriage return removed.
pub open spec fn line_first(s: Seq<char>) -> Seq<char> {
    strip_cr(s.take(first_idx(s, '\n')))
}

/// The first two lines of `s`, the way a line-by-line reader that takes two
/// lines and then picks the first and the last of them sees it: with fewer
/// than two lines the first (or an empty sequence) stands in for both.
pub open spec fn two_lines(s: Seq<char>) -> (Seq<char>, Seq<char>) {
    let k = first_idx(s, '\n');
    if k == s.len() {
        (line_first(s), line_first(s))
    } else {
        let rest = s.skip(k + 1);
        if rest.len() == 0 {
            (line_first(s), line_first(s))
        } else {
            (line_first(s), line_first(rest))
        }
    }
}

/// Returns the index of the first newline of `s`, or its length.
fn find_newline(s: &str) -> (r: usize)
    ensures
        r == first_idx(s@, '\n'),
{
    let n = s.unicode_len();
    let mut i: usize = 0;
    while i < n
        invariant
            i <= n,
            n == s@.len(),
            forall|j: int| 0 <= j < i ==> s@[j] != '\n',
        decreases n - i,
    {
        if s.get_char(i) == '\n' {
            proof {
                lemma_first_occurrence(s@, '\n', i as int);
            }
            return i;
        }
        i += 1;
    }
    proof {
        lemma_first_occurrence(s@, '\n', n as int);
    }
    n
}

/// Returns the first line of `s`.
pub fn first_line(s: &str) -> (r: String)
    ensures
        r@ == line_first(s@),
{
    proof {
        lemma_first_idx(s@, '\n');
    }
    let k = find_newline(s);
    if k > 0 && s.get_char(k - 1) == '\r' {
        proof {
            assert(s@.take(k as int).drop_last() =~= s@.take(k - 1));
        }
        s.substring_char(0, k - 1).to_owned()
    } else {
        s.substring_char(0, k).to_owned()
    }
}

/// Returns the first two lines of `s`, as `two_lines` describes them.
pub fn split_two_lines(s: &str) -> (r: (String, String))
    ensures
        r.0@ == two_lines(s@).0,
        r.1@ == two_lines(s@).1,
{
    proof {
        lemma_first_idx(s@, '\n');
    }
    let n = s.unicode_len();
    let k = find_newline(s);
    let l0 = first_line(s);
    if k == n {
        let l1 = first_line(s);
        return (l0, l1);
    }
    let rest = s.substring_char(k + 1, n);
    proof {
        assert(rest@ =~= s@.skip(k + 1));
    }
    if rest.unicode_len() == 0 {
        let l1 = first_line(s);
        (l0, l1)
    } else {
        let l1 = first_line(rest);
        (l0, l1)
    }
}

/// Lexicographic order on character sequences, by scalar value.
pub open spec fn lex_le(a: Seq<char>, b: Seq<char>) -> bool
    decreases a.len(),
{
    if a.len() == 0 {
        true
    } else if b.len() == 0 {
        false
    } else if (a[0] as u32) < (b[0] as u32) {
        true
    } else if (b[0] as u32) < (a[0] as u32) {
        false
    } else {
        lex_le(a.drop_first(), b.drop_first())
    }
}

proof fn lemma_lex_skip(a: Seq<char>, b: Seq<char>, i: int)
    requires
        0 <= i <= a.len(),
        i <= b.len(),
        forall|j: int| 0 <= j < i ==> (a[j] as u32) == (b[j] as u32),
    ensures
        lex_le(a, b) == lex_le(a.skip(i), b.skip(i)),
    decreases i,
{
    if i > 0 {
        assert(a.len() > 0 && b.len() > 0 && (a[0] as u32) == (b[0] as u32));
        lemma_lex_skip(a.drop_first(), b.drop_first(), i - 1);
        assert(a.drop_first().skip(i - 1) =~= a.skip(i));
        assert(b.drop_first().skip(i - 1) =~= b.skip(i));
    } else {
        assert(a.skip(0) =~= a);
        assert(b.skip(0) =~= b);
    }
}

/// Compares two strings in the lexicographic order `lex_le`.
pub fn str_lex_le(a: &str, b: &str) -> (r: bool)
    ensures
        r == lex_le(a@, b@),
{
    let n = a.unicode_len();
    let m = b.unicode_len();
    let mut i: usize = 0;
    loop
        invariant
            i <= n,
            i <= m,
            n == a@.len(),
            m == b@.len(),
            forall|j: int| 0 <= j < i ==> (a@[j] as u32) == (b@[j] as u32),
        decreases n - i,
    {
        proof {
            lemma_lex_skip(a@, b@, i as int);
        }
        if i == n {
            return true;
        }
        if i == m {
            return false;
        }
        let ca = a.get_char(i);
        let cb = b.get_char(i);
        if (ca as u32) < (cb as u32) {
            assert(a@.skip(i as int)[0] == ca && b@.skip(i as int)[0] == cb);
            return true;
        }
        if (cb as u32) < (ca as u32) {
            assert(a@.skip(i as int)[0] == ca && b@.skip(i as int)[0] == cb);
            return false;
        }
        i += 1;
    }
}

} // verus!
