//! The persisted map from package id to fingerprint, and the diff of two such
//! maps that selects the packages to regenerate.
use vstd::prelude::*;
use crate::fingerprint::BuckalExt;
use crate::graph::{Node, distinct_node_ids};

verus! {

/// A fixed-width content hash of a resolved node.
pub type Fingerprint = [u8; 32];

/// The schema version written with each cache.
pub const CACHE_VERSION: u32 = 1;

/// How a package id differs between two caches.
#[derive(PartialEq, Eq, Structural, Clone, Copy, Debug)]
pub enum ChangeType {
    Added,
    Removed,
    Changed,
}

/// The fingerprints of one run, keyed by package id.
pub struct BuckalCache {
    pub fingerprints: Vec<(String, Fingerprint)>,
    pub version: u32,
}

/// The ids that need work, each with how it changed.
pub struct BuckalChange {
    pub changes: Vec<(String, ChangeType)>,
}

/// The ids of a vector of keyed entries.
pub open spec fn ids_of<V>(v: Seq<(String, V)>) -> Set<Seq<char>> {
    Set::new(|k: Seq<char>| exists|i: int| 0 <= i < v.len() && v[i].0@ == k)
}

/// No id occurs twice.
pub open spec fn distinct_ids<V>(v: Seq<(String, V)>) -> bool {
    forall|i: int, j: int| 0 <= i < v.len() && 0 <= j < v.len() && i != j ==> v[i].0@ != v[j].0@
}

/// The map from id to fingerprint bytes that a vector of entries stands for.
pub open spec fn fp_map(v: Seq<(String, Fingerprint)>) -> Map<Seq<char>, Seq<u8>> {
    Map::new(
        |k: Seq<char>| ids_of(v).contains(k),
        |k: Seq<char>| v[choose|i: int| 0 <= i < v.len() && v[i].0@ == k].1@,
    )
}

/// How id `k` differs from the old map to the new one; `None` when it is in
/// neither, or in both with the same fingerprint.
pub open spec fn change_of(
    new: Map<Seq<char>, Seq<u8>>,
    old: Map<Seq<char>, Seq<u8>>,
    k: Seq<char>,
) -> Option<ChangeType> {
    if new.contains_key(k) && !old.contains_key(k) {
        Some(ChangeType::Added)
    } else if new.contains_key(k) && old.contains_key(k) && new[k] != old[k] {
        Some(ChangeType::Changed)
    } else if !new.contains_key(k) && old.contains_key(k) {
        Some(ChangeType::Removed)
    } else {
        None
    }
}

/// `changes` lists, each once, exactly the ids that differ between the two
/// maps, each with how it differs.
pub open spec fn is_diff(
    changes: Seq<(String, ChangeType)>,
    new: Map<Seq<char>, Seq<u8>>,
    old: Map<Seq<char>, Seq<u8>>,
) -> bool {
    &&& distinct_ids(changes)
    &&& forall|i: int|
        0 <= i < changes.len() ==> change_of(new, old, #[trigger] changes[i].0@) == Some(
            changes[i].1,
        )
    &&& forall|k: Seq<char>| #[trigger] change_of(new, old, k) is Some ==> ids_of(changes).contains(k)
}

proof fn lemma_fp_map_at(v: Seq<(String, Fingerprint)>, i: int)
    requires
        distinct_ids(v),
        0 <= i < v.len(),
    ensures
        fp_map(v).contains_key(v[i].0@),
        fp_map(v)[v[i].0@] == v[i].1@,
{
    let k = v[i].0@;
    assert(ids_of(v).contains(k));
    let j = choose|j: int| 0 <= j < v.len() && v[j].0@ == k;
    assert(j == i);
}

/// Whether two fingerprints hold the same bytes.
pub fn same_fingerprint(a: &Fingerprint, b: &Fingerprint) -> (r: bool)
    ensures
        r == (a@ == b@),
{
    let mut i: usize = 0;
    while i < 32
        invariant
            0 <= i <= 32,
            a@.len() == 32,
            b@.len() == 32,
            forall|j: int| 0 <= j < i ==> a@[j] == b@[j],
        decreases 32 - i,
    {
        if a[i] != b[i] {
            assert(a@[i as int] != b@[i as int]);
            return false;
        }
        i = i + 1;
    }
    assert(a@ =~= b@);
    true
}

impl BuckalCache {
    /// Ids are unique.
    pub open spec fn wf(&self) -> bool {
        distinct_ids(self.fingerprints@)
    }

    /// What the cache holds, as a map from id to fingerprint bytes.
    pub open spec fn view_map(&self) -> Map<Seq<char>, Seq<u8>> {
        fp_map(self.fingerprints@)
    }

    /// The fingerprints of every node of a resolution, keyed by node id.
    pub fn new(nodes: &Vec<Node>) -> (r: Self)
        requires
            distinct_node_ids(nodes@),
        ensures
            r.wf(),
            r.version == CACHE_VERSION,
            forall|k: Seq<char>|
                r.view_map().contains_key(k) <==> exists|i: int| 0 <= i < nodes@.len() && nodes@[i].id@ == k,
            forall|i: int|
                0 <= i < nodes@.len() ==> r.view_map()[#[trigger] nodes@[i].id@] == nodes@[i].fingerprint_spec(),
    {
        let mut entries: Vec<(String, Fingerprint)> = Vec::new();
        let mut i: usize = 0;
        while i < nodes.len()
            invariant
                0 <= i <= nodes@.len(),
                distinct_node_ids(nodes@),
                entries@.len() == i,
                forall|j: int| 0 <= j < i ==> (#[trigger] entries@[j]).0@ == nodes@[j].id@
                    && entries@[j].1@ == nodes@[j].fingerprint_spec(),
            decreases nodes@.len() - i,
        {
            let fp = nodes[i].fingerprint();
            entries.push((nodes[i].id.clone(), fp));
            i = i + 1;
        }
        let r = BuckalCache { fingerprints: entries, version: CACHE_VERSION };
        assert(distinct_ids(r.fingerprints@)) by {
            assert forall|a: int, b: int| 0 <= a < entries@.len() && 0 <= b < entries@.len() && a != b implies entries@[a].0@
                != entries@[b].0@ by {
                assert(entries@[a].0@ == nodes@[a].id@ && entries@[b].0@ == nodes@[b].id@);
            }
        }
        assert forall|k: Seq<char>|
            r.view_map().contains_key(k) <==> exists|i: int| 0 <= i < nodes@.len() && nodes@[i].id@ == k by {
            if r.view_map().contains_key(k) {
                let j = choose|j: int| 0 <= j < entries@.len() && entries@[j].0@ == k;
                assert(nodes@[j].id@ == k);
            }
            if exists|i: int| 0 <= i < nodes@.len() && nodes@[i].id@ == k {
                let j = choose|j: int| 0 <= j < nodes@.len() && nodes@[j].id@ == k;
                assert(entries@[j].0@ == k);
                assert(ids_of(entries@).contains(k));
            }
        }
        assert forall|i: int| 0 <= i < nodes@.len() implies r.view_map()[#[trigger] nodes@[i].id@]
            == nodes@[i].fingerprint_spec() by {
            lemma_fp_map_at(entries@, i);
            assert(entries@[i].0@ == nodes@[i].id@);
        }
        r
    }

    /// A cache with no entry, at the current schema version.
    pub fn new_empty() -> (r: Self)
        ensures
            r.wf(),
            r.view_map() == Map::<Seq<char>, Seq<u8>>::empty(),
            r.version == CACHE_VERSION,
    {
        let r = BuckalCache { fingerprints: Vec::new(), version: CACHE_VERSION };
        assert(r.view_map() =~= Map::<Seq<char>, Seq<u8>>::empty());
        r
    }

    /// The index of `id` in this cache, if it is there.
    pub fn find(&self, id: &String) -> (r: Option<usize>)
        ensures
            r is None <==> !ids_of(self.fingerprints@).contains(id@),
            r matches Some(i) ==> i < self.fingerprints@.len() && self.fingerprints@[i as int].0@
                == id@,
    {
        let mut i: usize = 0;
        while i < self.fingerprints.len()
            invariant
                0 <= i <= self.fingerprints@.len(),
                forall|j: int| 0 <= j < i ==> self.fingerprints@[j].0@ != id@,
            decreases self.fingerprints@.len() - i,
        {
            if self.fingerprints[i].0 == *id {
                return Some(i);
            }
            i = i + 1;
        }
        assert(!ids_of(self.fingerprints@).contains(id@)) by {
            if ids_of(self.fingerprints@).contains(id@) {
                let j = choose|j: int|
                    0 <= j < self.fingerprints@.len() && self.fingerprints@[j].0@ == id@;
                assert(self.fingerprints@[j].0@ != id@);
            }
        }
        None
    }

    /// The ids that differ between `self`, the new cache, and `other`, the
    /// cache of the previous run.
    pub fn diff(&self, other: &BuckalCache) -> (r: BuckalChange)
        requires
            self.wf(),
            other.wf(),
        ensures
            is_diff(r.changes@, self.view_map(), other.view_map()),
    {
        let ghost nm = self.view_map();
        let ghost om = other.view_map();
        let ghost sv = self.fingerprints@;
        let ghost ov = other.fingerprints@;
        let mut changes: Vec<(String, ChangeType)> = Vec::new();
        let mut i: usize = 0;
        while i < self.fingerprints.len()
            invariant
                0 <= i <= sv.len(),
                sv == self.fingerprints@,
                nm == fp_map(sv),
                om == fp_map(ov),
                ov == other.fingerprints@,
                distinct_ids(sv),
                distinct_ids(ov),
                distinct_ids(changes@),
                forall|j: int|
                    0 <= j < changes@.len() ==> change_of(nm, om, #[trigger] changes@[j].0@)
                        == Some(changes@[j].1),
                forall|j: int|
                    0 <= j < changes@.len() ==> exists|l: int|
                        0 <= l < i && sv[l].0@ == #[trigger] changes@[j].0@,
                forall|l: int|
                    0 <= l < i && #[trigger] change_of(nm, om, sv[l].0@) is Some ==> ids_of(
                        changes@,
                    ).contains(sv[l].0@),
            decreases sv.len() - i,
        {
            let id = &self.fingerprints[i].0;
            proof {
                lemma_fp_map_at(sv, i as int);
            }
            let ghost prev = changes@;
            let ghost k = sv[i as int].0@;
            let c: Option<ChangeType> = match other.find(id) {
                Some(j) => {
                    proof {
                        lemma_fp_map_at(ov, j as int);
                    }
                    if same_fingerprint(&self.fingerprints[i].1, &other.fingerprints[j].1) {
                        None
                    } else {
                        Some(ChangeType::Changed)
                    }
                },
                None => Some(ChangeType::Added),
            };
            assert(c == change_of(nm, om, k));
            if let Some(t) = c {
                changes.push((id.clone(), t));
                proof {
                    assert forall|a: int, b: int|
                        0 <= a < changes@.len() && 0 <= b < changes@.len() && a != b implies changes@[a].0@
                        != changes@[b].0@ by {
                        if a == prev.len() {
                            let l = choose|l: int| 0 <= l < i && sv[l].0@ == prev[b].0@;
                            assert(sv[l].0@ != k);
                        } else if b == prev.len() {
                            let l = choose|l: int| 0 <= l < i && sv[l].0@ == prev[a].0@;
                            assert(sv[l].0@ != k);
                        } else {
                            assert(prev[a] == changes@[a] && prev[b] == changes@[b]);
                        }
                    }
                    assert forall|j: int| 0 <= j < changes@.len() implies exists|l: int|
                        0 <= l < i + 1 && sv[l].0@ == #[trigger] changes@[j].0@ by {
                        if j < prev.len() {
                            assert(prev[j] == changes@[j]);
                            let l = choose|l: int| 0 <= l < i && sv[l].0@ == prev[j].0@;
                            assert(sv[l].0@ == changes@[j].0@);
                        } else {
                            assert(sv[i as int].0@ == changes@[j].0@);
                        }
                    }
                    assert forall|l: int|
                        0 <= l < i + 1 && #[trigger] change_of(nm, om, sv[l].0@) is Some implies ids_of(
                        changes@,
                    ).contains(sv[l].0@) by {
                        if l < i {
                            let j = choose|j: int| 0 <= j < prev.len() && prev[j].0@ == sv[l].0@;
                            assert(changes@[j] == prev[j]);
                        } else {
                            assert(changes@[prev.len() as int].0@ == sv[l].0@);
                        }
                    }
                }
            }
            i = i + 1;
        }
        let mut i: usize = 0;
        while i < other.fingerprints.len()
            invariant
                0 <= i <= ov.len(),
                sv == self.fingerprints@,
                nm == fp_map(sv),
                om == fp_map(ov),
                ov == other.fingerprints@,
                distinct_ids(sv),
                distinct_ids(ov),
                distinct_ids(changes@),
                forall|j: int|
                    0 <= j < changes@.len() ==> change_of(nm, om, #[trigger] changes@[j].0@)
                        == Some(changes@[j].1),
                forall|j: int|
                    0 <= j < changes@.len() ==> ids_of(sv).contains(#[trigger] changes@[j].0@)
                        || exists|l: int| 0 <= l < i && ov[l].0@ == changes@[j].0@,
                forall|l: int|
                    0 <= l < sv.len() && #[trigger] change_of(nm, om, sv[l].0@) is Some ==> ids_of(
                        changes@,
                    ).contains(sv[l].0@),
                forall|l: int|
                    0 <= l < i && #[trigger] change_of(nm, om, ov[l].0@) is Some ==> ids_of(
                        changes@,
                    ).contains(ov[l].0@),
            decreases ov.len() - i,
        {
            let id = &other.fingerprints[i].0;
            let ghost prev = changes@;
            let ghost k = ov[i as int].0@;
            proof {
                lemma_fp_map_at(ov, i as int);
            }
            if self.find(id).is_none() {
                assert(change_of(nm, om, k) == Some(ChangeType::Removed));
                changes.push((id.clone(), ChangeType::Removed));
                proof {
                    assert forall|j: int| 0 <= j < prev.len() implies prev[j].0@ != k by {
                        if ids_of(sv).contains(prev[j].0@) {
                        } else {
                            let l = choose|l: int| 0 <= l < i && ov[l].0@ == prev[j].0@;
                            assert(ov[l].0@ != k);
                        }
                    }
                    assert forall|a: int, b: int|
                        0 <= a < changes@.len() && 0 <= b < changes@.len() && a != b implies changes@[a].0@
                        != changes@[b].0@ by {
                        if a == prev.len() {
                            assert(prev[b].0@ != k);
                        } else if b == prev.len() {
                            assert(prev[a].0@ != k);
                        } else {
                            assert(prev[a] == changes@[a] && prev[b] == changes@[b]);
                        }
                    }
                    assert forall|j: int| 0 <= j < changes@.len() implies ids_of(sv).contains(
                        #[trigger] changes@[j].0@,
                    ) || exists|l: int| 0 <= l < i + 1 && ov[l].0@ == changes@[j].0@ by {
                        if j < prev.len() {
                            assert(prev[j] == changes@[j]);
                        } else {
                            assert(ov[i as int].0@ == changes@[j].0@);
                        }
                    }
                    assert forall|l: int|
                        0 <= l < sv.len() && #[trigger] change_of(nm, om, sv[l].0@) is Some implies ids_of(
                        changes@,
                    ).contains(sv[l].0@) by {
                        let j = choose|j: int| 0 <= j < prev.len() && prev[j].0@ == sv[l].0@;
                        assert(changes@[j] == prev[j]);
                    }
                    assert forall|l: int|
                        0 <= l < i + 1 && #[trigger] change_of(nm, om, ov[l].0@) is Some implies ids_of(
                        changes@,
                    ).contains(ov[l].0@) by {
                        if l < i {
                            let j = choose|j: int| 0 <= j < prev.len() && prev[j].0@ == ov[l].0@;
                            assert(changes@[j] == prev[j]);
                        } else {
                            assert(changes@[prev.len() as int].0@ == ov[l].0@);
                        }
                    }
                }
            } else {
                assert(ids_of(sv).contains(k));
            }
            i = i + 1;
        }
        assert forall|k: Seq<char>| #[trigger] change_of(nm, om, k) is Some implies ids_of(
            changes@,
        ).contains(k) by {
            if nm.contains_key(k) {
                let l = choose|l: int| 0 <= l < sv.len() && sv[l].0@ == k;
                assert(change_of(nm, om, sv[l].0@) is Some);
            } else {
                let l = choose|l: int| 0 <= l < ov.len() && ov[l].0@ == k;
                assert(change_of(nm, om, ov[l].0@) is Some);
            }
        }
        BuckalChange { changes }
    }
}

/// Every id of either cache falls in exactly one class: added, changed,
/// removed, or untouched (in both, with the same fingerprint); and no id
/// outside both caches is listed.
pub proof fn lemma_diff_partition(
    changes: Seq<(String, ChangeType)>,
    new: Map<Seq<char>, Seq<u8>>,
    old: Map<Seq<char>, Seq<u8>>,
    k: Seq<char>,
)
    requires
        is_diff(changes, new, old),
    ensures
        (new.contains_key(k) || old.contains_key(k)) <==> (ids_of(changes).contains(k) || (
        new.contains_key(k) && old.contains_key(k) && new[k] == old[k])),
        ids_of(changes).contains(k) ==> !(new.contains_key(k) && old.contains_key(k) && new[k]
            == old[k]),
        forall|i: int|
            0 <= i < changes.len() && changes[i].0@ == k ==> (#[trigger] changes[i].1 == ChangeType::Added
                <==> (new.contains_key(k) && !old.contains_key(k))) && (changes[i].1
                == ChangeType::Changed <==> (new.contains_key(k) && old.contains_key(k) && new[k]
                != old[k])) && (changes[i].1 == ChangeType::Removed <==> (!new.contains_key(k)
                && old.contains_key(k))),
{
    if ids_of(changes).contains(k) {
        let i = choose|i: int| 0 <= i < changes.len() && changes[i].0@ == k;
        assert(change_of(new, old, changes[i].0@) == Some(changes[i].1));
    } else if change_of(new, old, k) is Some {
        assert(ids_of(changes).contains(k));
    }
}

/// Diffing a cache against itself lists nothing: an unchanged graph needs no
/// regeneration on the next run.
pub proof fn lemma_diff_same_is_empty(changes: Seq<(String, ChangeType)>, m: Map<Seq<char>, Seq<u8>>)
    requires
        is_diff(changes, m, m),
    ensures
        changes.len() == 0,
{
    if changes.len() > 0 {
        assert(change_of(m, m, changes[0].0@) == Some(changes[0].1));
    }
}

} // verus!
