//! Relative paths that must stay below a base directory.
use vstd::prelude::*;

verus! {

/// A path separator on either family of systems.
pub open spec fn is_sep(c: char) -> bool {
    c == '/' || c == '\\'
}

/// The components of `s` between separators, empty ones included: `n`
/// separators give `n + 1` components.
pub open spec fn split_parts(s: Seq<char>) -> Seq<Seq<char>>
    decreases s.len(),
{
    if s.len() == 0 {
        seq![Seq::<char>::empty()]
    } else {
        let rest = split_parts(s.drop_last());
        if is_sep(s.last()) {
            rest.push(Seq::<char>::empty())
        } else {
            rest.update(rest.len() - 1, rest.last().push(s.last()))
        }
    }
}

/// How a component moves the depth below the base: `..` climbs one level,
/// an empty component or `.` stays, any other descends one level.
pub open spec fn step(p: Seq<char>) -> int {
    if p.len() == 0 || p == seq!['.'] {
        0
    } else if p == seq!['.', '.'] {
        -1
    } else {
        1
    }
}

/// The depth below the base after walking `parts`.
pub open spec fn parts_depth(parts: Seq<Seq<char>>) -> int
    decreases parts.len(),
{
    if parts.len() == 0 {
        0
    } else {
        parts_depth(parts.drop_last()) + step(parts.last())
    }
}

/// No prefix of the walk climbs above the base.
pub open spec fn never_escapes(parts: Seq<Seq<char>>) -> bool {
    forall|n: int| 0 <= n <= parts.len() ==> parts_depth(#[trigger] parts.subrange(0, n)) >= 0
}

/// `s` is relative, names no drive or server, and never climbs above the
/// directory it is taken from.
pub open spec fn safe_subpath(s: Seq<char>) -> bool {
    &&& !(s.len() > 0 && is_sep(s[0]))
    &&& !s.contains(':')
    &&& never_escapes(split_parts(s))
}

spec fn kind(p: Seq<char>) -> u8 {
    if p.len() == 0 {
        0
    } else if p == seq!['.'] {
        1
    } else if p == seq!['.', '.'] {
        2
    } else {
        3
    }
}

proof fn lemma_split_nonempty(s: Seq<char>)
    ensures
        split_parts(s).len() >= 1,
    decreases s.len(),
{
    if s.len() > 0 {
        lemma_split_nonempty(s.drop_last());
    }
}

proof fn lemma_never_escapes_push(parts: Seq<Seq<char>>, p: Seq<char>)
    ensures
        never_escapes(parts.push(p)) <==> (never_escapes(parts) && parts_depth(parts) + step(p) >= 0),
{
    let q = parts.push(p);
    assert(q.drop_last() =~= parts);
    assert(q.subrange(0, q.len() as int) =~= q);
    assert forall|n: int| 0 <= n <= parts.len() implies #[trigger] q.subrange(0, n) == parts.subrange(0, n) by {
        assert(q.subrange(0, n) =~= parts.subrange(0, n));
    }
    assert(parts.subrange(0, parts.len() as int) =~= parts);
    if never_escapes(q) {
        assert forall|n: int| 0 <= n <= parts.len() implies parts_depth(#[trigger] parts.subrange(0, n)) >= 0 by {
            assert(q.subrange(0, n) == parts.subrange(0, n));
        }
        assert(parts_depth(q.subrange(0, q.len() as int)) >= 0);
    }
    if never_escapes(parts) && parts_depth(parts) + step(p) >= 0 {
        assert forall|n: int| 0 <= n <= q.len() implies parts_depth(#[trigger] q.subrange(0, n)) >= 0 by {
            if n <= parts.len() {
                assert(q.subrange(0, n) == parts.subrange(0, n));
            }
        }
    }
}

/// Whether `target`, a path received from elsewhere, stays inside the
/// directory it is resolved against.
pub fn is_safe_subpath(target: &str) -> (r: bool)
    ensures
        r == safe_subpath(target@),
{
    let n: usize = target.unicode_len();
    let ghost s = target@;
    if n > 0 {
        let c0 = target.get_char(0);
        if c0 == '/' || c0 == '\\' {
            return false;
        }
    }
    let ghost mut done: Seq<Seq<char>> = Seq::empty();
    let ghost mut cur: Seq<char> = Seq::empty();
    let mut cur_kind: u8 = 0;
    let mut depth: usize = 0;
    let mut i: usize = 0;
    assert(s.subrange(0, 0) =~= Seq::<char>::empty());
    assert(done.push(cur) =~= seq![Seq::<char>::empty()]);
    while i < n
        invariant
            n == s.len(),
            s == target@,
            0 <= i <= n,
            !(s.len() > 0 && is_sep(s[0])),
            forall|j: int| 0 <= j < i ==> s[j] != ':',
            split_parts(s.subrange(0, i as int)) == done.push(cur),
            cur_kind == kind(cur),
            depth as int == parts_depth(done),
            depth <= i,
            never_escapes(done),
        decreases n - i,
    {
        let c = target.get_char(i);
        let ghost pre = s.subrange(0, i as int);
        let ghost post = s.subrange(0, i + 1);
        assert(post.drop_last() =~= pre);
        assert(post.last() == c);
        if c == ':' {
            assert(s[i as int] == ':');
            return false;
        }
        if c == '/' || c == '\\' {
            proof {
                lemma_never_escapes_push(done, cur);
                assert(done.push(cur).drop_last() =~= done);
            }
            if cur_kind == 2 {
                if depth == 0 {
                    proof {
                        assert(!never_escapes(split_parts(s))) by {
                            assert(!never_escapes(done.push(cur)));
                            assert(split_parts(post) == done.push(cur).push(Seq::<char>::empty()));
                            assert(split_parts(post).drop_last() =~= done.push(cur));
                            lemma_prefix_escape(s, i as int + 1);
                        }
                    }
                    return false;
                }
                depth = depth - 1;
            } else if cur_kind == 3 {
                depth = depth + 1;
            }
            proof {
                done = done.push(cur);
                cur = Seq::empty();
            }
            cur_kind = 0;
        } else {
            proof {
                let parts = done.push(cur);
                assert(parts.update(parts.len() - 1, cur.push(c)) =~= done.push(cur.push(c)));
                let old_cur = cur;
                cur = cur.push(c);
                if c == '.' {
                    if old_cur.len() == 1 && old_cur == seq!['.'] {
                        assert(cur =~= seq!['.', '.']);
                    } else if old_cur.len() == 0 {
                        assert(cur =~= seq!['.']);
                    } else {
                        assert(cur.len() >= 2);
                        if old_cur == seq!['.', '.'] {
                            assert(cur.len() == 3);
                        }
                        if cur == seq!['.', '.'] {
                            assert(old_cur =~= seq!['.']);
                        }
                    }
                } else {
                    assert(cur.last() != '.');
                    assert(cur != seq!['.']);
                    assert(cur != seq!['.', '.']);
                }
            }
            if c == '.' && cur_kind < 2 {
                cur_kind = cur_kind + 1;
            } else {
                cur_kind = 3;
            }
        }
        i = i + 1;
    }
    assert(s.subrange(0, n as int) =~= s);
    proof {
        lemma_never_escapes_push(done, cur);
        assert(!s.contains(':')) by {
            if s.contains(':') {
                let j = choose|j: int| 0 <= j < s.len() && s[j] == ':';
                assert(s[j] != ':');
            }
        }
    }
    if cur_kind == 2 {
        depth > 0
    } else {
        true
    }
}

proof fn lemma_split_prefix(s: Seq<char>, m: int, k: int)
    requires
        0 <= m <= k <= s.len(),
    ensures
        split_parts(s.subrange(0, k)).len() >= split_parts(s.subrange(0, m)).len(),
        split_parts(s.subrange(0, k)).subrange(0, split_parts(s.subrange(0, m)).len() - 1)
            == split_parts(s.subrange(0, m)).drop_last(),
    decreases k - m,
{
    lemma_split_nonempty(s.subrange(0, m));
    if k > m {
        lemma_split_prefix(s, m, k - 1);
        let t = s.subrange(0, k);
        assert(t.drop_last() =~= s.subrange(0, k - 1));
        lemma_split_nonempty(s.subrange(0, k - 1));
        let a = split_parts(s.subrange(0, k - 1));
        let l = split_parts(s.subrange(0, m)).len() - 1;
        assert(split_parts(t).subrange(0, l) =~= a.subrange(0, l));
    } else {
        assert(split_parts(s.subrange(0, k)).subrange(0, split_parts(s.subrange(0, m)).len() - 1)
            =~= split_parts(s.subrange(0, m)).drop_last());
    }
}

/// Once a prefix of the path climbs above the base, the whole path does.
proof fn lemma_prefix_escape(s: Seq<char>, m: int)
    requires
        0 <= m <= s.len(),
        split_parts(s.subrange(0, m)).len() >= 1,
        !never_escapes(split_parts(s.subrange(0, m)).drop_last()),
    ensures
        !never_escapes(split_parts(s)),
{
    lemma_split_nonempty(s.subrange(0, m));
    assert(s.subrange(0, s.len() as int) =~= s);
    lemma_split_prefix(s, m, s.len() as int);
    let p = split_parts(s.subrange(0, m)).drop_last();
    let q = split_parts(s);
    let n = choose|n: int| 0 <= n <= p.len() && !(parts_depth(#[trigger] p.subrange(0, n)) >= 0);
    assert(q.subrange(0, p.len() as int) == p);
    assert(q.subrange(0, n) =~= q.subrange(0, p.len() as int).subrange(0, n));
    assert(parts_depth(q.subrange(0, n)) < 0);
}

} // verus!
