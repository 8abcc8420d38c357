//! Sets and maps of strings held in vectors.
//!
//! A set is a `Vec<String>` without repeated entries; a map is a
//! `Vec<(String, String)>` without repeated keys. Their meaning is given by
//! `strs` and `pairs_map`.
use vstd::prelude::*;

verus! {

/// The set of strings that a vector holds.
pub open spec fn strs(v: Seq<String>) -> Set<Seq<char>> {
    Set::new(|s: Seq<char>| exists|i: int| 0 <= i < v.len() && v[i]@ == s)
}

/// No string occurs twice.
pub open spec fn distinct(v: Seq<String>) -> bool {
    forall|i: int, j: int| 0 <= i < v.len() && 0 <= j < v.len() && i != j ==> v[i]@ != v[j]@
}

/// The keys of a vector of pairs.
pub open spec fn keys_of(v: Seq<(String, String)>) -> Set<Seq<char>> {
    Set::new(|k: Seq<char>| exists|i: int| 0 <= i < v.len() && v[i].0@ == k)
}

/// No key occurs twice.
pub open spec fn distinct_keys(v: Seq<(String, String)>) -> bool {
    forall|i: int, j: int| 0 <= i < v.len() && 0 <= j < v.len() && i != j ==> v[i].0@ != v[j].0@
}

/// The map that a vector of pairs with distinct keys stands for.
pub open spec fn pairs_map(v: Seq<(String, String)>) -> Map<Seq<char>, Seq<char>> {
    Map::new(
        |k: Seq<char>| keys_of(v).contains(k),
        |k: Seq<char>| v[choose|i: int| 0 <= i < v.len() && v[i].0@ == k].1@,
    )
}

/// The entry at index `i` is what the map holds for its key.
pub proof fn lemma_pairs_map_at(v: Seq<(String, String)>, i: int)
    requires
        distinct_keys(v),
        0 <= i < v.len(),
    ensures
        pairs_map(v).contains_key(v[i].0@),
        pairs_map(v)[v[i].0@] == v[i].1@,
{
    let k = v[i].0@;
    assert(keys_of(v).contains(k));
    let j = choose|j: int| 0 <= j < v.len() && v[j].0@ == k;
    assert(j == i);
}

/// Whether `v` holds `s`.
pub fn contains_str(v: &Vec<String>, s: &String) -> (r: bool)
    ensures
        r == strs(v@).contains(s@),
{
    let mut i: usize = 0;
    while i < v.len()
        invariant
            0 <= i <= v.len(),
            forall|j: int| 0 <= j < i ==> v@[j]@ != s@,
        decreases v.len() - i,
    {
        if v[i] == *s {
            assert(strs(v@).contains(s@)) by {
                assert(v@[i as int]@ == s@);
            }
            return true;
        }
        i = i + 1;
    }
    false
}

/// Adds `s` to the set `v`.
pub fn insert_str(v: &mut Vec<String>, s: String)
    requires
        distinct(old(v)@),
    ensures
        distinct(final(v)@),
        strs(final(v)@) == strs(old(v)@).insert(s@),
{
    if contains_str(v, &s) {
        assert(strs(v@) =~= strs(v@).insert(s@));
    } else {
        let ghost before = v@;
        v.push(s);
        assert(strs(v@) =~= strs(before).insert(s@)) by {
            assert(v@[before.len() as int]@ == s@);
            assert forall|t: Seq<char>| strs(before).contains(t) implies strs(v@).contains(t) by {
                let i = choose|i: int| 0 <= i < before.len() && before[i]@ == t;
                assert(v@[i]@ == t);
            }
            assert forall|t: Seq<char>| strs(v@).contains(t) implies strs(before).insert(s@).contains(t) by {
                let i = choose|i: int| 0 <= i < v@.len() && v@[i]@ == t;
                if i < before.len() {
                    assert(before[i]@ == t);
                }
            }
        }
    }
}

/// Adds every string of `src` to the set `dst`.
pub fn union_into(dst: &mut Vec<String>, src: &Vec<String>)
    requires
        distinct(old(dst)@),
    ensures
        distinct(final(dst)@),
        strs(final(dst)@) == strs(old(dst)@) + strs(src@),
{
    let ghost start = dst@;
    let mut i: usize = 0;
    while i < src.len()
        invariant
            0 <= i <= src.len(),
            distinct(dst@),
            strs(dst@) == strs(start) + strs(src@.subrange(0, i as int)),
        decreases src.len() - i,
    {
        insert_str(dst, src[i].clone());
        assert(strs(src@.subrange(0, i + 1)) =~= strs(src@.subrange(0, i as int)).insert(src@[i as int]@)) by {
            let a = src@.subrange(0, i as int);
            let b = src@.subrange(0, i + 1);
            assert(b[i as int]@ == src@[i as int]@);
            assert forall|t: Seq<char>| strs(a).contains(t) implies strs(b).contains(t) by {
                let j = choose|j: int| 0 <= j < a.len() && a[j]@ == t;
                assert(b[j]@ == t);
            }
            assert forall|t: Seq<char>| strs(b).contains(t) implies strs(a).insert(src@[i as int]@).contains(t) by {
                let j = choose|j: int| 0 <= j < b.len() && b[j]@ == t;
                if j < i {
                    assert(a[j]@ == t);
                }
            }
        }
        assert(strs(dst@) =~= strs(start) + strs(src@.subrange(0, i + 1)));
        i = i + 1;
    }
    assert(src@.subrange(0, src@.len() as int) =~= src@);
}


/// The index of key `k` in `m`, if it is there.
pub fn find_key(m: &Vec<(String, String)>, k: &String) -> (r: Option<usize>)
    ensures
        r is None <==> !keys_of(m@).contains(k@),
        r matches Some(i) ==> i < m@.len() && m@[i as int].0@ == k@,
{
    let mut i: usize = 0;
    while i < m.len()
        invariant
            0 <= i <= m.len(),
            forall|j: int| 0 <= j < i ==> m@[j].0@ != k@,
        decreases m.len() - i,
    {
        if m[i].0 == *k {
            return Some(i);
        }
        i = i + 1;
    }
    assert(!keys_of(m@).contains(k@)) by {
        if keys_of(m@).contains(k@) {
            let j = choose|j: int| 0 <= j < m@.len() && m@[j].0@ == k@;
            assert(m@[j].0@ != k@);
        }
    }
    None
}

/// What the map `m` holds for key `k`.
pub fn map_get<'a>(m: &'a Vec<(String, String)>, k: &String) -> (r: Option<&'a String>)
    requires
        distinct_keys(m@),
    ensures
        r is None <==> !pairs_map(m@).contains_key(k@),
        r matches Some(v) ==> pairs_map(m@)[k@] == v@,
{
    match find_key(m, k) {
        Some(i) => {
            proof {
                lemma_pairs_map_at(m@, i as int);
            }
            Some(&m[i].1)
        },
        None => None,
    }
}

proof fn lemma_push_pair(m: Seq<(String, String)>, k: String, v: String)
    requires
        distinct_keys(m),
        !keys_of(m).contains(k@),
    ensures
        distinct_keys(m.push((k, v))),
        pairs_map(m.push((k, v))) == pairs_map(m).insert(k@, v@),
{
    let n = m.push((k, v));
    assert forall|i: int, j: int| 0 <= i < n.len() && 0 <= j < n.len() && i != j implies n[i].0@ != n[j].0@ by {
        if i == m.len() {
            assert(m[j].0@ != k@) by {
                if m[j].0@ == k@ {
                    assert(keys_of(m).contains(k@));
                }
            }
        } else if j == m.len() {
            assert(m[i].0@ != k@) by {
                if m[i].0@ == k@ {
                    assert(keys_of(m).contains(k@));
                }
            }
        }
    }
    assert forall|key: Seq<char>| keys_of(n).contains(key) <==> keys_of(m).insert(k@).contains(key) by {
        if keys_of(n).contains(key) {
            let i = choose|i: int| 0 <= i < n.len() && n[i].0@ == key;
            if i < m.len() {
                assert(m[i].0@ == key);
            }
        }
        if keys_of(m).contains(key) {
            let i = choose|i: int| 0 <= i < m.len() && m[i].0@ == key;
            assert(n[i].0@ == key);
        }
        if key == k@ {
            assert(n[m.len() as int].0@ == key);
        }
    }
    assert forall|key: Seq<char>| #[trigger] keys_of(n).contains(key) implies pairs_map(n)[key]
        == pairs_map(m).insert(k@, v@)[key] by {
        let i = choose|i: int| 0 <= i < n.len() && n[i].0@ == key;
        lemma_pairs_map_at(n, i);
        if i < m.len() {
            assert(m[i] == n[i]);
            lemma_pairs_map_at(m, i);
        }
    }
    assert(pairs_map(n) =~= pairs_map(m).insert(k@, v@));
}

/// Sets key `k` of the map `m` to `v`, replacing what it held.
pub fn map_insert(m: &mut Vec<(String, String)>, k: String, v: String)
    requires
        distinct_keys(old(m)@),
    ensures
        distinct_keys(final(m)@),
        pairs_map(final(m)@) == pairs_map(old(m)@).insert(k@, v@),
{
    match find_key(m, &k) {
        Some(i) => {
            let ghost before = m@;
            let ghost kv = k@;
            let ghost vv = v@;
            m.set(i, (k, v));
            assert forall|a: int, b: int| 0 <= a < m@.len() && 0 <= b < m@.len() && a != b implies m@[a].0@ != m@[b].0@ by {
                if a != i && b != i {
                    assert(before[a] == m@[a] && before[b] == m@[b]);
                } else if a == i {
                    assert(before[b] == m@[b]);
                } else {
                    assert(before[a] == m@[a]);
                }
            }
            assert forall|key: Seq<char>| keys_of(m@).contains(key) <==> keys_of(before).contains(key) by {
                if keys_of(m@).contains(key) {
                    let j = choose|j: int| 0 <= j < m@.len() && m@[j].0@ == key;
                    assert(before[j].0@ == key);
                }
                if keys_of(before).contains(key) {
                    let j = choose|j: int| 0 <= j < before.len() && before[j].0@ == key;
                    assert(m@[j].0@ == key);
                }
            }
            assert forall|key: Seq<char>| #[trigger] keys_of(m@).contains(key) implies pairs_map(m@)[key]
                == pairs_map(before).insert(kv, vv)[key] by {
                let j = choose|j: int| 0 <= j < m@.len() && m@[j].0@ == key;
                lemma_pairs_map_at(m@, j);
                if j != i {
                    assert(before[j] == m@[j]);
                    lemma_pairs_map_at(before, j);
                }
            }
            assert(keys_of(before).contains(kv)) by {
                assert(before[i as int].0@ == kv);
            }
            assert(pairs_map(m@) =~= pairs_map(before).insert(kv, vv));
        },
        None => {
            proof {
                lemma_push_pair(m@, k, v);
            }
            m.push((k, v));
        },
    }
}

/// Sets key `k` of the map `m` to `v` unless `m` already holds `k`.
pub fn map_insert_absent(m: &mut Vec<(String, String)>, k: String, v: String)
    requires
        distinct_keys(old(m)@),
    ensures
        distinct_keys(final(m)@),
        pairs_map(final(m)@) == if pairs_map(old(m)@).contains_key(k@) {
            pairs_map(old(m)@)
        } else {
            pairs_map(old(m)@).insert(k@, v@)
        },
{
    if find_key(m, &k).is_none() {
        proof {
            lemma_push_pair(m@, k, v);
        }
        m.push((k, v));
    }
}

/// Copies into `dst` each entry of `src` whose key `dst` does not hold.
pub fn patch_map(dst: &mut Vec<(String, String)>, src: &Vec<(String, String)>)
    requires
        distinct_keys(old(dst)@),
        distinct_keys(src@),
    ensures
        distinct_keys(final(dst)@),
        pairs_map(final(dst)@) == pairs_map(src@).union_prefer_right(pairs_map(old(dst)@)),
{
    let ghost start = dst@;
    let mut i: usize = 0;
    while i < src.len()
        invariant
            0 <= i <= src.len(),
            distinct_keys(dst@),
            distinct_keys(src@),
            pairs_map(dst@) == pairs_map(src@.subrange(0, i as int)).union_prefer_right(pairs_map(start)),
        decreases src.len() - i,
    {
        let ghost a = src@.subrange(0, i as int);
        let ghost b = src@.subrange(0, i + 1);
        proof {
            assert(b =~= a.push(src@[i as int]));
            assert(!keys_of(a).contains(src@[i as int].0@)) by {
                if keys_of(a).contains(src@[i as int].0@) {
                    let j = choose|j: int| 0 <= j < a.len() && a[j].0@ == src@[i as int].0@;
                    assert(src@[j].0@ == src@[i as int].0@);
                }
            }
            assert(distinct_keys(a)) by {
                assert forall|x: int, y: int| 0 <= x < a.len() && 0 <= y < a.len() && x != y implies a[x].0@ != a[y].0@ by {
                    assert(a[x] == src@[x] && a[y] == src@[y]);
                }
            }
            lemma_push_pair(a, src@[i as int].0, src@[i as int].1);
        }
        map_insert_absent(dst, src[i].0.clone(), src[i].1.clone());
        assert(pairs_map(dst@) =~= pairs_map(b).union_prefer_right(pairs_map(start)));
        i = i + 1;
    }
    assert(src@.subrange(0, src@.len() as int) =~= src@);
}

} // verus!
