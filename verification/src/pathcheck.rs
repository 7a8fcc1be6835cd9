//! Verified path-safety logic for archive entry names.
//!
//! An entry name is written to disk only when it is *safe*: relative, free of
//! NUL characters, and such that walking its `/`-separated segments (with
//! `.` and empty segments ignored and `..` popping one level) never leaves
//! the directory the walk started in. `resolve_segs` models how a filesystem
//! resolves such a name against a base directory; the public lemma
//! `lemma_safe_name_confined` states that a safe name always resolves, to a
//! path that keeps the base directory as a prefix.

use vstd::prelude::*;
use crate::text::first_idx;
use crate::text::lemma_first_idx;

verus! {

/// Splits `s` on `c`. Splitting an empty sequence gives one empty segment,
/// as splitting `"a/"` on `'/'` gives `["a", ""]`.
pub open spec fn split_on(s: Seq<char>, c: char) -> Seq<Seq<char>>
    decreases s.len(),
{
    if s.len() == 0 {
        seq![Seq::<char>::empty()]
    } else if s[0] == c {
        seq![Seq::<char>::empty()] + split_on(s.drop_first(), c)
    } else {
        let rest = split_on(s.drop_first(), c);
        seq![seq![s[0]] + rest[0]] + rest.drop_first()
    }
}

pub proof fn lemma_split_head(s: Seq<char>, c: char)
    ensures
        split_on(s, c).len() >= 1,
        split_on(s, c)[0] =~= s.take(first_idx(s, c)),
        first_idx(s, c) < s.len() ==> split_on(s, c).skip(1) =~~= split_on(
            s.skip(first_idx(s, c) + 1),
            c,
        ),
        first_idx(s, c) == s.len() ==> split_on(s, c).len() == 1,
    decreases s.len(),
{
    lemma_first_idx(s, c);
    if s.len() == 0 {
    } else if s[0] == c {
        assert(split_on(s, c).skip(1) =~~= split_on(s.drop_first(), c));
        assert(s.skip(1) =~= s.drop_first());
    } else {
        lemma_split_head(s.drop_first(), c);
        let k = first_idx(s, c);
        assert(first_idx(s.drop_first(), c) == k - 1);
        assert(seq![s[0]] + s.drop_first().take(k - 1) =~= s.take(k));
        if k < s.len() {
            assert(s.drop_first().skip(k) =~= s.skip(k + 1));
            assert(split_on(s, c).skip(1) =~~= split_on(s.drop_first(), c).skip(1));
        }
    }
}

/// A segment that resolution ignores: empty (doubled or trailing separator)
/// or the current-directory marker.
pub open spec fn seg_skip(seg: Seq<char>) -> bool {
    seg.len() == 0 || seg == seq!['.']
}

/// The parent-directory marker.
pub open spec fn seg_parent(seg: Seq<char>) -> bool {
    seg == seq!['.', '.']
}

/// Walks the segments keeping a depth counter; `..` may never pop below the
/// starting level.
pub open spec fn depth_ok(segs: Seq<Seq<char>>, depth: int) -> bool
    decreases segs.len(),
{
    if segs.len() == 0 {
        true
    } else if seg_skip(segs[0]) {
        depth_ok(segs.skip(1), depth)
    } else if seg_parent(segs[0]) {
        depth > 0 && depth_ok(segs.skip(1), depth - 1)
    } else {
        depth_ok(segs.skip(1), depth + 1)
    }
}

/// An archive entry name that may be joined under the destination directory:
/// non-empty, relative, without NUL, and never walking above its root.
pub open spec fn entry_name_safe(name: Seq<char>) -> bool {
    name.len() > 0 && name[0] != '/' && !name.contains('\u{0}') && depth_ok(
        split_on(name, '/'),
        0,
    )
}

/// How a filesystem resolves the segments against the stack of directories
/// `acc`: `None` when a `..` would climb out of the root.
pub open spec fn resolve_segs(segs: Seq<Seq<char>>, acc: Seq<Seq<char>>) -> Option<
    Seq<Seq<char>>,
>
    decreases segs.len(),
{
    if segs.len() == 0 {
        Some(acc)
    } else if seg_skip(segs[0]) {
        resolve_segs(segs.skip(1), acc)
    } else if seg_parent(segs[0]) {
        if acc.len() == 0 {
            None
        } else {
            resolve_segs(segs.skip(1), acc.drop_last())
        }
    } else {
        resolve_segs(segs.skip(1), acc.push(segs[0]))
    }
}

proof fn lemma_depth_walk_confined(
    segs: Seq<Seq<char>>,
    depth: int,
    base: Seq<Seq<char>>,
    acc: Seq<Seq<char>>,
)
    requires
        depth_ok(segs, depth),
        depth >= 0,
        acc.len() == base.len() + depth,
        base.is_prefix_of(acc),
    ensures
        resolve_segs(segs, acc) matches Some(r) && base.is_prefix_of(r),
    decreases segs.len(),
{
    if segs.len() > 0 {
        if seg_skip(segs[0]) {
            lemma_depth_walk_confined(segs.skip(1), depth, base, acc);
        } else if seg_parent(segs[0]) {
            assert(base.is_prefix_of(acc.drop_last())) by {
                assert(acc.drop_last().take(base.len() as int) =~= acc.take(base.len() as int));
            }
            lemma_depth_walk_confined(segs.skip(1), depth - 1, base, acc.drop_last());
        } else {
            assert(base.is_prefix_of(acc.push(segs[0]))) by {
                assert(acc.push(segs[0]).take(base.len() as int) =~= acc.take(base.len() as int));
            }
            lemma_depth_walk_confined(segs.skip(1), depth + 1, base, acc.push(segs[0]));
        }
    }
}

/// Traversal containment: a safe entry name resolves against any base
/// directory to a path that still lies under that base.
pub proof fn lemma_safe_name_confined(name: Seq<char>, base: Seq<Seq<char>>)
    requires
        entry_name_safe(name),
    ensures
        resolve_segs(split_on(name, '/'), base) matches Some(r) && base.is_prefix_of(r),
{
    lemma_depth_walk_confined(split_on(name, '/'), 0, base, base);
}

/// Splitting distributes over joining two sequences with the separator.
pub proof fn lemma_split_join(a: Seq<char>, b: Seq<char>, c: char)
    ensures
        split_on(a + seq![c] + b, c) =~~= split_on(a, c) + split_on(b, c),
    decreases a.len(),
{
    let s = a + seq![c] + b;
    if a.len() == 0 {
        assert(s[0] == c);
        assert(s.drop_first() =~= b);
        assert(split_on(a, c) =~= seq![Seq::<char>::empty()]);
    } else if a[0] == c {
        assert(s[0] == c);
        assert(s.drop_first() =~= a.drop_first() + seq![c] + b);
        lemma_split_join(a.drop_first(), b, c);
    } else {
        assert(s[0] == a[0] && s[0] != c);
        assert(s.drop_first() =~= a.drop_first() + seq![c] + b);
        lemma_split_join(a.drop_first(), b, c);
        lemma_split_head(a.drop_first(), c);
        let r = split_on(s.drop_first(), c);
        let ra = split_on(a.drop_first(), c);
        let rb = split_on(b, c);
        assert(r =~~= ra + rb);
        assert(r[0] == ra[0]);
        assert(r.drop_first() =~~= ra.drop_first() + rb);
        assert(split_on(s, c) =~~= seq![seq![a[0]] + ra[0]] + ra.drop_first() + rb);
        assert(split_on(a, c) =~~= seq![seq![a[0]] + ra[0]] + ra.drop_first());
    }
}

/// Resolution walks segment lists one after the other.
pub proof fn lemma_resolve_concat(s1: Seq<Seq<char>>, s2: Seq<Seq<char>>, acc: Seq<Seq<char>>)
    ensures
        resolve_segs(s1 + s2, acc) == (match resolve_segs(s1, acc) {
            Some(m) => resolve_segs(s2, m),
            None => None,
        }),
    decreases s1.len(),
{
    if s1.len() == 0 {
        assert(s1 + s2 =~~= s2);
    } else {
        assert((s1 + s2)[0] == s1[0]);
        assert((s1 + s2).skip(1) =~~= s1.skip(1) + s2);
        if seg_skip(s1[0]) {
            lemma_resolve_concat(s1.skip(1), s2, acc);
        } else if seg_parent(s1[0]) {
            if acc.len() > 0 {
                lemma_resolve_concat(s1.skip(1), s2, acc.drop_last());
            }
        } else {
            lemma_resolve_concat(s1.skip(1), s2, acc.push(s1[0]));
        }
    }
}

/// Finds the next occurrence of `c` in `s` at or after `from`.
fn find_char_from(s: &str, c: char, from: usize) -> (r: usize)
    requires
        from <= s@.len(),
    ensures
        from <= r <= s@.len(),
        r - from == first_idx(s@.skip(from as int), c),
        r < s@.len() ==> s@[r as int] == c,
        forall|j: int| from <= j < r ==> s@[j] != c,
{
    let n = s.unicode_len();
    let mut i: usize = from;
    while i < n
        invariant
            from <= i <= n,
            n == s@.len(),
            forall|j: int| from <= j < i ==> s@[j] != c,
        decreases n - i,
    {
        if s.get_char(i) == c {
            proof {
                crate::text::lemma_first_occurrence(s@.skip(from as int), c, i - from);
            }
            return i;
        }
        i += 1;
    }
    proof {
        crate::text::lemma_first_occurrence(s@.skip(from as int), c, n - from);
    }
    n
}

/// Decides `entry_name_safe` for an entry name.
pub fn is_safe_entry_name(name: &str) -> (r: bool)
    ensures
        r == entry_name_safe(name@),
{
    let n = name.unicode_len();
    if n == 0 {
        return false;
    }
    if name.get_char(0) == '/' {
        return false;
    }
    let mut i: usize = 0;
    while i < n
        invariant
            i <= n,
            n == name@.len(),
            forall|j: int| 0 <= j < i ==> name@[j] != '\u{0}',
        decreases n - i,
    {
        if name.get_char(i) == '\u{0}' {
            assert(name@.contains('\u{0}'));
            return false;
        }
        i += 1;
    }
    assert(!name@.contains('\u{0}'));
    proof {
        assert(name@.skip(0) =~= name@);
    }
    let mut i: usize = 0;
    let mut depth: usize = 0;
    loop
        invariant
            i <= n,
            n == name@.len(),
            depth <= i,
            n > 0,
            name@[0] != '/',
            !name@.contains('\u{0}'),
            depth_ok(split_on(name@, '/'), 0) == depth_ok(
                split_on(name@.skip(i as int), '/'),
                depth as int,
            ),
        decreases n - i,
    {
        let j = find_char_from(name, '/', i);
        let ghost suffix = name@.skip(i as int);
        let ghost seg = name@.subrange(i as int, j as int);
        proof {
            lemma_split_head(suffix, '/');
            assert(suffix.take(j - i) =~= seg);
        }
        let len = j - i;
        let is_skip = len == 0 || (len == 1 && name.get_char(i) == '.');
        let is_par = len == 2 && name.get_char(i) == '.' && name.get_char(i + 1) == '.';
        proof {
            if len == 1 && name@[i as int] == '.' {
                assert(seg =~= seq!['.']);
            }
            if is_par {
                assert(seg =~= seq!['.', '.']);
            }
            if !is_skip {
                assert(seg != seq!['.'] && seg.len() != 0);
            }
            if !is_par && len == 2 {
                assert(seg[0] == name@[i as int] && seg[1] == name@[i + 1]);
            }
            assert(seg_skip(seg) == is_skip);
            assert(seg_parent(seg) == is_par);
        }
        let new_depth: usize;
        if is_skip {
            new_depth = depth;
        } else if is_par {
            if depth == 0 {
                proof {
                    assert(split_on(suffix, '/')[0] == seg);
                    assert(seg_parent(seg) && !seg_skip(seg));
                    assert(!depth_ok(split_on(suffix, '/'), depth as int));
                }
                return false;
            }
            new_depth = depth - 1;
        } else {
            new_depth = depth + 1;
        }
        if j == n {
            proof {
                assert(first_idx(suffix, '/') == suffix.len());
                assert(split_on(suffix, '/').len() == 1);
                assert(split_on(suffix, '/')[0] == seg);
                let tail = split_on(suffix, '/').skip(1);
                assert(tail.len() == 0);
                assert(depth_ok(tail, depth as int));
                assert(depth_ok(tail, depth - 1));
                assert(depth_ok(tail, depth + 1));
                assert(depth_ok(split_on(suffix, '/'), depth as int));
            }
            return true;
        }
        proof {
            assert(split_on(suffix, '/').skip(1) =~~= split_on(name@.skip(j + 1), '/')) by {
                assert(suffix.skip(first_idx(suffix, '/') + 1) =~= name@.skip(j + 1));
            }
        }
        i = j + 1;
        depth = new_depth;
    }
}

} // verus!
