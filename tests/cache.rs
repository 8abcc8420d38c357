use buckal::cache::{BuckalCache, ChangeType};
use buckal::fingerprint::BuckalExt;
use buckal::graph::{DepKindInfo, DependencyKind, Node, NodeDep};
use buckal::predicate::{Cfg, CfgExpr, PlatformPredicate};

fn s(x: &str) -> String {
    x.to_string()
}

fn node(id: &str, features: &[&str], deps: Vec<NodeDep>) -> Node {
    Node { id: s(id), deps, features: features.iter().map(|f| s(f)).collect() }
}

fn edge(name: &str, pkg: &str, kind: DependencyKind) -> NodeDep {
    NodeDep { name: s(name), pkg: s(pkg), dep_kinds: vec![DepKindInfo { kind, target: None }] }
}

fn kind_of(changes: &[(String, ChangeType)], id: &str) -> Option<ChangeType> {
    changes.iter().find(|(k, _)| k == id).map(|(_, c)| *c)
}

#[test]
fn diff_classifies_every_id_once() {
    let old = BuckalCache {
        fingerprints: vec![(s("a"), [1; 32]), (s("b"), [2; 32]), (s("c"), [3; 32])],
        version: 1,
    };
    let new = BuckalCache {
        fingerprints: vec![(s("b"), [2; 32]), (s("c"), [9; 32]), (s("d"), [4; 32])],
        version: 1,
    };
    let d = new.diff(&old);
    assert_eq!(d.changes.len(), 3);
    assert_eq!(kind_of(&d.changes, "a"), Some(ChangeType::Removed));
    assert_eq!(kind_of(&d.changes, "b"), None);
    assert_eq!(kind_of(&d.changes, "c"), Some(ChangeType::Changed));
    assert_eq!(kind_of(&d.changes, "d"), Some(ChangeType::Added));
}

#[test]
fn diff_against_empty_cache_adds_everything() {
    let new = BuckalCache { fingerprints: vec![(s("a"), [1; 32]), (s("b"), [2; 32])], version: 1 };
    let d = new.diff(&BuckalCache::new_empty());
    assert_eq!(d.changes.len(), 2);
    assert!(d.changes.iter().all(|(_, c)| *c == ChangeType::Added));
    let back = BuckalCache::new_empty().diff(&new);
    assert!(back.changes.iter().all(|(_, c)| *c == ChangeType::Removed));
}

#[test]
fn diff_of_a_cache_with_itself_is_empty() {
    let c = BuckalCache { fingerprints: vec![(s("a"), [1; 32]), (s("b"), [2; 32])], version: 1 };
    assert!(c.diff(&c).changes.is_empty());
}

#[test]
fn fingerprint_ignores_order_and_repetition() {
    let a = node(
        "x",
        &["std", "default"],
        vec![edge("p", "P", DependencyKind::Normal), edge("q", "Q", DependencyKind::Build)],
    );
    let b = node(
        "x",
        &["default", "std", "std"],
        vec![edge("q", "Q", DependencyKind::Build), edge("p", "P", DependencyKind::Normal)],
    );
    assert_eq!(a.fingerprint(), b.fingerprint());
}

#[test]
fn fingerprint_sees_semantic_changes() {
    let base = node("x", &["std"], vec![edge("p", "P", DependencyKind::Normal)]);
    let fp = base.fingerprint();
    assert_ne!(fp, [0u8; 32]);
    let more_features = node("x", &["std", "alloc"], vec![edge("p", "P", DependencyKind::Normal)]);
    assert_ne!(fp, more_features.fingerprint());
    let no_edge = node("x", &["std"], vec![]);
    assert_ne!(fp, no_edge.fingerprint());
    let other_kind = node("x", &["std"], vec![edge("p", "P", DependencyKind::Build)]);
    assert_ne!(fp, other_kind.fingerprint());
    let mut gated = node("x", &["std"], vec![edge("p", "P", DependencyKind::Normal)]);
    gated.deps[0].dep_kinds[0].target =
        Some(PlatformPredicate::Cfg(CfgExpr::Value(Cfg::Name(s("unix")))));
    assert_ne!(fp, gated.fingerprint());
    let other_id = node("y", &["std"], vec![edge("p", "P", DependencyKind::Normal)]);
    assert_ne!(fp, other_id.fingerprint());
}

#[test]
fn fingerprint_is_the_blake3_of_the_sorted_facts() {
    let n = node("x", &["b", "a"], vec![]);
    let mut input: Vec<u8> = Vec::new();
    for fact in ["F:a", "F:b", "I:x"] {
        input.extend_from_slice(fact.as_bytes());
        input.push(0xFF);
    }
    let expected: [u8; 32] = blake3::hash(&input).into();
    assert_eq!(n.fingerprint(), expected);
}

#[test]
fn cache_new_keys_each_node() {
    let nodes = vec![node("a", &["x"], vec![]), node("b", &[], vec![])];
    let c = BuckalCache::new(&nodes);
    assert_eq!(c.version, 1);
    assert_eq!(c.fingerprints.len(), 2);
    assert_eq!(c.fingerprints[0].0, "a");
    assert_eq!(c.fingerprints[0].1, nodes[0].fingerprint());
    assert_eq!(c.fingerprints[1].1, nodes[1].fingerprint());
}

#[test]
fn diff_of_two_empty_caches_is_empty() {
    assert!(BuckalCache::new_empty().diff(&BuckalCache::new_empty()).changes.is_empty());
}

fn gated(pred: PlatformPredicate) -> Node {
    let mut n = node("x", &["std"], vec![edge("p", "P", DependencyKind::Normal)]);
    n.deps[0].dep_kinds[0].target = Some(pred);
    n
}

#[test]
fn fingerprint_tells_predicates_apart_whatever_their_names() {
    let name_with_parens =
        gated(PlatformPredicate::Cfg(CfgExpr::Value(Cfg::Name(s("all(x,y)")))));
    let conjunction = gated(PlatformPredicate::Cfg(CfgExpr::All(
        Box::new(CfgExpr::Value(Cfg::Name(s("x")))),
        Box::new(CfgExpr::Value(Cfg::Name(s("y")))),
    )));
    assert_ne!(name_with_parens.fingerprint(), conjunction.fingerprint());
    let pair = gated(PlatformPredicate::Cfg(CfgExpr::Value(Cfg::KeyPair(s("a"), s("b")))));
    let quoted = gated(PlatformPredicate::Cfg(CfgExpr::Value(Cfg::Name(s("a=\"b\"")))));
    assert_ne!(pair.fingerprint(), quoted.fingerprint());
    let triple = gated(PlatformPredicate::Name(s("cfg(unix)")));
    let cfg = gated(PlatformPredicate::Cfg(CfgExpr::Value(Cfg::Name(s("unix")))));
    assert_ne!(triple.fingerprint(), cfg.fingerprint());
}

#[test]
fn fingerprint_tells_edges_apart_when_names_hold_separators() {
    let a = node("x", &[], vec![edge("p\u{0}q", "r", DependencyKind::Normal)]);
    let b = node("x", &[], vec![edge("p", "q\u{0}r", DependencyKind::Normal)]);
    assert_ne!(a.fingerprint(), b.fingerprint());
    let mut bare = node("x", &[], vec![edge("p", "P", DependencyKind::Normal)]);
    bare.deps[0].dep_kinds.clear();
    let gone = node("x", &[], vec![]);
    assert_ne!(bare.fingerprint(), gone.fingerprint());
}
