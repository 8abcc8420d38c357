//! Package ids of the form `<kind>+<url>#<name>@<version>[+<extra>]`.
use vstd::prelude::*;

verus! {

/// The first index at or after `from` whose character is in `stops`, or the
/// length of `s` when there is none.
pub open spec fn first_of(s: Seq<char>, from: int, stops: Set<char>) -> int
    decreases s.len() - from,
{
    if from >= s.len() {
        s.len() as int
    } else if stops.contains(s[from]) {
        from
    } else {
        first_of(s, from + 1, stops)
    }
}

/// The name and version that a package id holds, if it has the form
/// `<kind>+<url>#<name>@<version>` optionally followed by `+<extra>`: the kind
/// holds no `+` or `#`, the url no `#`, the name no `@`, the version no `+`
/// or `#`, the extra no newline, and none of them is empty.
pub open spec fn pkgid_parts(s: Seq<char>) -> Option<(Seq<char>, Seq<char>)> {
    let plus_pos = first_of(s, 0, set!['+', '#']);
    let hash_pos = first_of(s, plus_pos + 1, set!['#']);
    let at_pos = first_of(s, hash_pos + 1, set!['@']);
    let end_pos = first_of(s, at_pos + 1, set!['+', '#']);
    let newline_pos = first_of(s, end_pos + 1, set!['\n']);
    if 0 < plus_pos < s.len() && s[plus_pos] == '+' && plus_pos + 1 < hash_pos < s.len() && hash_pos + 1 < at_pos < s.len() && at_pos + 1
        < end_pos && (end_pos == s.len() || (s[end_pos] == '+' && end_pos + 1 < s.len() && newline_pos == s.len())) {
        Some((s.subrange(hash_pos + 1, at_pos), s.subrange(at_pos + 1, end_pos)))
    } else {
        None
    }
}

proof fn lemma_first_of_bounds(s: Seq<char>, from: int, stops: Set<char>)
    requires
        0 <= from,
    ensures
        from <= first_of(s, from, stops) || (from > s.len() && first_of(s, from, stops) == s.len()),
        first_of(s, from, stops) <= s.len() || from > s.len(),
        first_of(s, from, stops) < s.len() ==> stops.contains(s[first_of(s, from, stops)]),
        first_of(s, from, stops) <= s.len(),
    decreases s.len() - from,
{
    if from < s.len() && !stops.contains(s[from]) {
        lemma_first_of_bounds(s, from + 1, stops);
    }
}

/// Scans `s` from `from` for a character in `stops` (one or two of them).
fn scan(s: &str, n: usize, from: usize, a: char, b: char) -> (r: usize)
    requires
        n == s@.len(),
        from <= n,
    ensures
        r as int == first_of(s@, from as int, set![a, b]),
{
    let mut i = from;
    while i < n
        invariant
            from <= i <= n,
            n == s@.len(),
            first_of(s@, from as int, set![a, b]) == first_of(s@, i as int, set![a, b]),
        decreases n - i,
    {
        let c = s.get_char(i);
        if c == a || c == b {
            return i;
        }
        i = i + 1;
    }
    i
}

/// The name and version that the package id `id` holds.
pub fn parse_package_id(id: &str) -> (r: Option<(String, String)>)
    ensures
        r matches Some((name, version)) ==> pkgid_parts(id@) == Some((name@, version@)),
        r is None ==> pkgid_parts(id@) is None,
{
    let ghost s = id@;
    let n = id.unicode_len();
    let plus_pos = scan(id, n, 0, '+', '#');
    if plus_pos == 0 || plus_pos >= n || id.get_char(plus_pos) != '+' {
        return None;
    }
    let hash_pos = scan(id, n, plus_pos + 1, '#', '#');
    assert(set!['#', '#'] =~= set!['#']);
    if hash_pos <= plus_pos + 1 || hash_pos >= n {
        return None;
    }
    let at_pos = scan(id, n, hash_pos + 1, '@', '@');
    assert(set!['@', '@'] =~= set!['@']);
    if at_pos <= hash_pos + 1 || at_pos >= n {
        return None;
    }
    let end_pos = scan(id, n, at_pos + 1, '+', '#');
    proof {
        lemma_first_of_bounds(s, at_pos + 1, set!['+', '#']);
    }
    if end_pos <= at_pos + 1 {
        return None;
    }
    if end_pos < n {
        if id.get_char(end_pos) != '+' || end_pos + 1 >= n {
            return None;
        }
        let newline_pos = scan(id, n, end_pos + 1, '\n', '\n');
        assert(set!['\n', '\n'] =~= set!['\n']);
        if newline_pos != n {
            return None;
        }
    }
    let name = String::from_str(id.substring_char(hash_pos + 1, at_pos));
    let version = String::from_str(id.substring_char(at_pos + 1, end_pos));
    Some((name, version))
}

} // verus!
