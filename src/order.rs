//! Lexicographic order on strings, and sorted string sets.
use vstd::prelude::*;
use vstd::utf8::char_u32_cast;
use crate::strset::strs;

verus! {

/// `a` comes strictly before `b`, comparing characters by code point.
pub open spec fn lex_lt(a: Seq<char>, b: Seq<char>) -> bool
    decreases a.len(),
{
    if b.len() == 0 {
        false
    } else if a.len() == 0 {
        true
    } else if a[0] != b[0] {
        (a[0] as u32) < (b[0] as u32)
    } else {
        lex_lt(a.drop_first(), b.drop_first())
    }
}

/// Each string comes strictly before the next.
pub open spec fn sorted(v: Seq<String>) -> bool {
    forall|i: int, j: int| 0 <= i < j < v.len() ==> lex_lt(v[i]@, v[j]@)
}

pub proof fn lemma_lex_irreflexive(a: Seq<char>)
    ensures
        !lex_lt(a, a),
    decreases a.len(),
{
    if a.len() > 0 {
        lemma_lex_irreflexive(a.drop_first());
    }
}

pub proof fn lemma_lex_transitive(a: Seq<char>, b: Seq<char>, c: Seq<char>)
    requires
        lex_lt(a, b),
        lex_lt(b, c),
    ensures
        lex_lt(a, c),
    decreases a.len(),
{
    if a.len() > 0 && b.len() > 0 && c.len() > 0 && a[0] == b[0] && b[0] == c[0] {
        lemma_lex_transitive(a.drop_first(), b.drop_first(), c.drop_first());
    }
}

pub proof fn lemma_lex_total(a: Seq<char>, b: Seq<char>)
    requires
        a != b,
    ensures
        lex_lt(a, b) || lex_lt(b, a),
    decreases a.len(),
{
    if a.len() > 0 && b.len() > 0 {
        if a[0] == b[0] {
            assert(a =~= seq![a[0]] + a.drop_first());
            assert(b =~= seq![b[0]] + b.drop_first());
            lemma_lex_total(a.drop_first(), b.drop_first());
        } else {
            char_u32_cast(a[0], a[0] as u32);
            char_u32_cast(b[0], b[0] as u32);
        }
    } else if a.len() == 0 && b.len() == 0 {
        assert(a =~= b);
    }
}

pub proof fn lemma_lex_asymmetric(a: Seq<char>, b: Seq<char>)
    requires
        lex_lt(a, b),
    ensures
        !lex_lt(b, a),
{
    if lex_lt(b, a) {
        lemma_lex_transitive(a, b, a);
        lemma_lex_irreflexive(a);
    }
}

/// Whether `a` comes strictly before `b`.
pub fn lex_less(a: &String, b: &String) -> (r: bool)
    ensures
        r == lex_lt(a@, b@),
{
    let n = a.as_str().unicode_len();
    let m = b.as_str().unicode_len();
    let mut i: usize = 0;
    assert(a@.subrange(0, n as int) =~= a@);
    assert(b@.subrange(0, m as int) =~= b@);
    while i < n && i < m
        invariant
            0 <= i <= n,
            i <= m,
            n == a@.len(),
            m == b@.len(),
            lex_lt(a@, b@) == lex_lt(a@.subrange(i as int, n as int), b@.subrange(i as int, m as int)),
        decreases n - i,
    {
        let x = a.as_str().get_char(i);
        let y = b.as_str().get_char(i);
        let ghost sa = a@.subrange(i as int, n as int);
        let ghost sb = b@.subrange(i as int, m as int);
        assert(sa[0] == x && sb[0] == y);
        if x != y {
            return (x as u32) < (y as u32);
        }
        assert(sa.drop_first() =~= a@.subrange(i + 1, n as int));
        assert(sb.drop_first() =~= b@.subrange(i + 1, m as int));
        i = i + 1;
    }
    i < m
}

/// Adds `s` to the sorted set `v`, keeping it sorted.
pub fn insert_sorted(v: &mut Vec<String>, s: String)
    requires
        sorted(old(v)@),
    ensures
        sorted(final(v)@),
        strs(final(v)@) == strs(old(v)@).insert(s@),
{
    let ghost before = v@;
    let mut i: usize = 0;
    while i < v.len() && lex_less(&v[i], &s)
        invariant
            0 <= i <= v@.len(),
            v@ == before,
            sorted(before),
            forall|j: int| 0 <= j < i ==> lex_lt(before[j]@, s@),
        decreases v@.len() - i,
    {
        i = i + 1;
    }
    if i < v.len() && v[i] == s {
        assert(strs(v@) =~= strs(before).insert(s@));
        return;
    }
    proof {
        if i < before.len() {
            assert(!lex_lt(before[i as int]@, s@));
            assert(before[i as int]@ != s@);
            lemma_lex_total(before[i as int]@, s@);
        }
    }
    v.insert(i, s);
    proof {
        assert forall|a: int, b: int| 0 <= a < b < v@.len() implies lex_lt(v@[a]@, v@[b]@) by {
            if b < i {
                assert(v@[a] == before[a] && v@[b] == before[b]);
            } else if b == i {
                assert(v@[a] == before[a]);
            } else if a == i {
                assert(v@[b] == before[b - 1]);
                if b - 1 > i {
                    lemma_lex_transitive(s@, before[i as int]@, before[b - 1]@);
                }
            } else if a < i {
                assert(v@[a] == before[a] && v@[b] == before[b - 1]);
            } else {
                assert(v@[a] == before[a - 1] && v@[b] == before[b - 1]);
            }
        }
        assert(strs(v@) =~= strs(before).insert(s@)) by {
            assert(v@[i as int]@ == s@);
            assert forall|t: Seq<char>| strs(before).contains(t) implies strs(v@).contains(t) by {
                let k = choose|k: int| 0 <= k < before.len() && before[k]@ == t;
                if k < i {
                    assert(v@[k] == before[k]);
                } else {
                    assert(v@[k + 1] == before[k]);
                }
            }
            assert forall|t: Seq<char>| strs(v@).contains(t) implies strs(before).insert(s@).contains(t) by {
                let k = choose|k: int| 0 <= k < v@.len() && v@[k]@ == t;
                if k < i {
                    assert(v@[k] == before[k]);
                } else if k > i {
                    assert(v@[k] == before[k - 1]);
                }
            }
        }
    }
}

/// Each string comes strictly before the next.
pub open spec fn sorted_views(v: Seq<Seq<char>>) -> bool {
    forall|i: int, j: int| 0 <= i < j < v.len() ==> lex_lt(v[i], v[j])
}

/// Two sorted sequences that hold the same strings are the same sequence.
pub proof fn lemma_sorted_unique(a: Seq<Seq<char>>, b: Seq<Seq<char>>)
    requires
        sorted_views(a),
        sorted_views(b),
        a.to_set() == b.to_set(),
    ensures
        a == b,
    decreases a.len(),
{
    if a.len() == 0 {
        if b.len() > 0 {
            assert(b.to_set().contains(b[0]));
        }
        assert(a =~= b);
    } else if b.len() == 0 {
        assert(a.to_set().contains(a[0]));
    } else {
        assert(b.to_set().contains(a[0]));
        assert(a.to_set().contains(b[0]));
        let j = choose|j: int| 0 <= j < b.len() && b[j] == a[0];
        let k = choose|k: int| 0 <= k < a.len() && a[k] == b[0];
        if j > 0 && k > 0 {
            lemma_lex_asymmetric(b[0], a[0]);
        }
        assert(a[0] == b[0]) by {
            if j > 0 {
                assert(k == 0);
            }
        }
        let a1 = a.drop_first();
        let b1 = b.drop_first();
        assert(a1.to_set() =~= b1.to_set()) by {
            assert forall|t: Seq<char>| a1.to_set().contains(t) implies b1.to_set().contains(t) by {
                let x = choose|x: int| 0 <= x < a1.len() && a1[x] == t;
                assert(a[x + 1] == t);
                assert(b.to_set().contains(t));
                let y = choose|y: int| 0 <= y < b.len() && b[y] == t;
                if y == 0 {
                    lemma_lex_irreflexive(a[0]);
                    assert(lex_lt(a[0], a[x + 1]));
                }
                assert(b1[y - 1] == t);
            }
            assert forall|t: Seq<char>| b1.to_set().contains(t) implies a1.to_set().contains(t) by {
                let x = choose|x: int| 0 <= x < b1.len() && b1[x] == t;
                assert(b[x + 1] == t);
                assert(a.to_set().contains(t));
                let y = choose|y: int| 0 <= y < a.len() && a[y] == t;
                if y == 0 {
                    lemma_lex_irreflexive(b[0]);
                    assert(lex_lt(b[0], b[x + 1]));
                }
                assert(a1[y - 1] == t);
            }
        }
        lemma_sorted_unique(a1, b1);
        assert(a =~= b) by {
            assert forall|i: int| 0 <= i < a.len() implies a[i] == b[i] by {
                if i > 0 {
                    assert(a1[i - 1] == a[i] && b1[i - 1] == b[i]);
                }
            }
        }
    }
}

/// `x` placed into the sorted sequence `v`, which lacks it.
proof fn lemma_sorted_insert(v: Seq<Seq<char>>, x: Seq<char>) -> (r: Seq<Seq<char>>)
    requires
        sorted_views(v),
        !v.contains(x),
    ensures
        sorted_views(r),
        r.to_set() == v.to_set().insert(x),
    decreases v.len(),
{
    if v.len() == 0 {
        let r = seq![x];
        assert(r.to_set() =~= v.to_set().insert(x)) by {
            assert(r[0] == x);
        }
        r
    } else if lex_lt(x, v[0]) {
        let r = seq![x] + v;
        assert forall|i: int, j: int| 0 <= i < j < r.len() implies lex_lt(r[i], r[j]) by {
            if i == 0 {
                if j > 1 {
                    lemma_lex_transitive(x, v[0], v[j - 1]);
                }
            } else {
                assert(r[i] == v[i - 1] && r[j] == v[j - 1]);
            }
        }
        assert(r.to_set() =~= v.to_set().insert(x)) by {
            assert forall|t: Seq<char>| r.to_set().contains(t) implies v.to_set().insert(x).contains(t) by {
                let k = choose|k: int| 0 <= k < r.len() && r[k] == t;
                if k > 0 {
                    assert(v[k - 1] == t);
                }
            }
            assert forall|t: Seq<char>| v.to_set().insert(x).contains(t) implies r.to_set().contains(t) by {
                if t == x {
                    assert(r[0] == x);
                } else {
                    let k = choose|k: int| 0 <= k < v.len() && v[k] == t;
                    assert(r[k + 1] == t);
                }
            }
        }
        r
    } else {
        assert(v[0] != x);
        lemma_lex_total(v[0], x);
        let rest = v.drop_first();
        assert(sorted_views(rest)) by {
            assert forall|i: int, j: int| 0 <= i < j < rest.len() implies lex_lt(rest[i], rest[j]) by {
                assert(rest[i] == v[i + 1] && rest[j] == v[j + 1]);
            }
        }
        assert(!rest.contains(x)) by {
            if rest.contains(x) {
                let k = choose|k: int| 0 <= k < rest.len() && rest[k] == x;
                assert(v[k + 1] == x);
            }
        }
        let t = lemma_sorted_insert(rest, x);
        let r = seq![v[0]] + t;
        assert forall|i: int, j: int| 0 <= i < j < r.len() implies lex_lt(r[i], r[j]) by {
            if i == 0 {
                assert(r[j] == t[j - 1]);
                assert(t.to_set().contains(t[j - 1]));
                if t[j - 1] != x {
                    let k = choose|k: int| 0 <= k < rest.len() && rest[k] == t[j - 1];
                    assert(v[k + 1] == t[j - 1]);
                }
            } else {
                assert(r[i] == t[i - 1] && r[j] == t[j - 1]);
            }
        }
        assert(r.to_set() =~= v.to_set().insert(x)) by {
            assert forall|u: Seq<char>| r.to_set().contains(u) implies v.to_set().insert(x).contains(u) by {
                let k = choose|k: int| 0 <= k < r.len() && r[k] == u;
                if k == 0 {
                    assert(v[0] == u);
                } else {
                    assert(t[k - 1] == u);
                    assert(t.to_set().contains(u));
                    if u != x {
                        let m = choose|m: int| 0 <= m < rest.len() && rest[m] == u;
                        assert(v[m + 1] == u);
                    }
                }
            }
            assert forall|u: Seq<char>| v.to_set().insert(x).contains(u) implies r.to_set().contains(u) by {
                if u == v[0] {
                    assert(r[0] == u);
                } else {
                    assert(rest.to_set().insert(x).contains(u)) by {
                        if u != x {
                            let k = choose|k: int| 0 <= k < v.len() && v[k] == u;
                            assert(rest[k - 1] == u);
                        }
                    }
                    let k = choose|k: int| 0 <= k < t.len() && t[k] == u;
                    assert(r[k + 1] == u);
                }
            }
        }
        r
    }
}

/// Every finite set of strings has a sorted enumeration.
pub proof fn lemma_sorted_exists(s: Set<Seq<char>>)
    requires
        s.finite(),
    ensures
        exists|v: Seq<Seq<char>>| sorted_views(v) && v.to_set() == s,
    decreases s.len(),
{
    if s.len() == 0 {
        s.lemma_len0_is_empty();
        let v = Seq::<Seq<char>>::empty();
        assert(v.to_set() =~= s);
        assert(sorted_views(v));
    } else {
        vstd::set_lib::lemma_set_empty_equivalency_len(s);
        assert(exists|a: Seq<char>| s.contains(a)) by {
            if !(exists|a: Seq<char>| s.contains(a)) {
                assert(s =~= Set::<Seq<char>>::empty());
            }
        }
        let x = s.choose();
        assert(s.contains(x));
        let rest = s.remove(x);
        lemma_sorted_exists(rest);
        let v = choose|v: Seq<Seq<char>>| sorted_views(v) && v.to_set() == rest;
        assert(!v.contains(x)) by {
            if v.contains(x) {
                assert(v.to_set().contains(x));
            }
        }
        let r = lemma_sorted_insert(v, x);
        assert(r.to_set() =~= s);
    }
}

} // verus!
