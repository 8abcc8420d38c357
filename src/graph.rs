//! The resolved dependency graph: packages, their targets, and the nodes of
//! one resolution with their dependency edges.
use vstd::prelude::*;
use crate::predicate::{Cfg, PlatformPredicate, predicate_holds};
use crate::strset::{distinct_keys, pairs_map};

verus! {

/// What a target builds.
#[derive(PartialEq, Eq, Structural, Clone, Copy, Debug)]
pub enum TargetKind {
    Lib,
    RLib,
    DyLib,
    CDyLib,
    StaticLib,
    ProcMacro,
    Bin,
    CustomBuild,
    Other,
}

/// One target of a package.
pub struct Target {
    pub name: String,
    pub kind: Vec<TargetKind>,
    pub src_path: String,
}

/// One package of the graph.
pub struct Package {
    pub id: String,
    pub name: String,
    pub version: String,
    /// The registry it comes from; `None` for a package of the workspace.
    pub source: Option<String>,
    pub manifest_dir: String,
    pub edition: String,
    pub links: Option<String>,
    pub targets: Vec<Target>,
}

/// The kind of a dependency edge.
#[derive(PartialEq, Eq, Structural, Clone, Copy, Debug)]
pub enum DependencyKind {
    Normal,
    Development,
    Build,
    Unknown,
}

/// One kind an edge carries, with the platform it is restricted to.
pub struct DepKindInfo {
    pub kind: DependencyKind,
    pub target: Option<PlatformPredicate>,
}

/// A dependency edge: the name the dependent uses, the package it reaches.
pub struct NodeDep {
    pub name: String,
    pub pkg: String,
    pub dep_kinds: Vec<DepKindInfo>,
}

/// One package as resolved: its activated features and outgoing edges.
pub struct Node {
    pub id: String,
    pub deps: Vec<NodeDep>,
    pub features: Vec<String>,
}

/// Everything a run compiles from.
pub struct BuckalContext {
    /// The id of the root package.
    pub root: String,
    pub nodes: Vec<Node>,
    pub packages: Vec<Package>,
    /// Archive checksums keyed by `<name>-<version>`.
    pub checksums: Vec<(String, String)>,
    /// Build-target labels of workspace packages, keyed by package id.
    pub first_party: Vec<(String, String)>,
    /// The active target triple.
    pub target: String,
    /// The active condition flags.
    pub cfgs: Vec<Cfg>,
    pub no_merge: bool,
    pub separate: bool,
}

pub open spec fn is_lib_kind(k: TargetKind) -> bool {
    match k {
        TargetKind::Lib | TargetKind::RLib | TargetKind::DyLib | TargetKind::CDyLib
        | TargetKind::StaticLib | TargetKind::ProcMacro => true,
        _ => false,
    }
}

/// The target builds a library of some form.
pub open spec fn is_lib_target(t: Target) -> bool {
    exists|i: int| 0 <= i < t.kind@.len() && is_lib_kind(#[trigger] t.kind@[i])
}

/// The target builds a binary.
pub open spec fn is_bin_target(t: Target) -> bool {
    exists|i: int| 0 <= i < t.kind@.len() && #[trigger] t.kind@[i] == TargetKind::Bin
}

/// The target is a build script.
pub open spec fn is_build_target(t: Target) -> bool {
    exists|i: int| 0 <= i < t.kind@.len() && #[trigger] t.kind@[i] == TargetKind::CustomBuild
}

/// The target is a procedural macro.
pub open spec fn is_proc_macro_target(t: Target) -> bool {
    exists|i: int| 0 <= i < t.kind@.len() && #[trigger] t.kind@[i] == TargetKind::ProcMacro
}

/// Whether `kinds` holds `k`.
pub fn has_kind(kinds: &Vec<TargetKind>, k: TargetKind) -> (r: bool)
    ensures
        r == exists|i: int| 0 <= i < kinds@.len() && #[trigger] kinds@[i] == k,
{
    let mut i: usize = 0;
    while i < kinds.len()
        invariant
            0 <= i <= kinds@.len(),
            forall|j: int| 0 <= j < i ==> kinds@[j] != k,
        decreases kinds@.len() - i,
    {
        if kinds[i] == k {
            return true;
        }
        i = i + 1;
    }
    false
}

impl Target {
    pub fn is_lib(&self) -> (r: bool)
        ensures
            r == is_lib_target(*self),
    {
        let mut i: usize = 0;
        while i < self.kind.len()
            invariant
                0 <= i <= self.kind@.len(),
                forall|j: int| 0 <= j < i ==> !is_lib_kind(#[trigger] self.kind@[j]),
            decreases self.kind@.len() - i,
        {
            match self.kind[i] {
                TargetKind::Lib | TargetKind::RLib | TargetKind::DyLib | TargetKind::CDyLib
                | TargetKind::StaticLib | TargetKind::ProcMacro => {
                    return true;
                },
                _ => {},
            }
            i = i + 1;
        }
        false
    }

    pub fn is_bin(&self) -> (r: bool)
        ensures
            r == is_bin_target(*self),
    {
        has_kind(&self.kind, TargetKind::Bin)
    }

    pub fn is_build_script(&self) -> (r: bool)
        ensures
            r == is_build_target(*self),
    {
        has_kind(&self.kind, TargetKind::CustomBuild)
    }

    pub fn is_proc_macro(&self) -> (r: bool)
        ensures
            r == is_proc_macro_target(*self),
    {
        has_kind(&self.kind, TargetKind::ProcMacro)
    }
}

/// `i` is the first library target of `ts`.
pub open spec fn first_lib_at(ts: Seq<Target>, i: int) -> bool {
    0 <= i < ts.len() && is_lib_target(ts[i]) && forall|j: int| 0 <= j < i ==> !is_lib_target(#[trigger] ts[j])
}

/// `i` is the first build-script target of `ts`.
pub open spec fn first_build_at(ts: Seq<Target>, i: int) -> bool {
    0 <= i < ts.len() && is_build_target(ts[i]) && forall|j: int| 0 <= j < i ==> !is_build_target(#[trigger] ts[j])
}

/// The first library target of `ts`, if any.
pub open spec fn first_lib(ts: Seq<Target>) -> Option<Target> {
    if exists|i: int| first_lib_at(ts, i) {
        Some(ts[choose|i: int| first_lib_at(ts, i)])
    } else {
        None
    }
}

/// The first build-script target of `ts`, if any.
pub open spec fn first_build(ts: Seq<Target>) -> Option<Target> {
    if exists|i: int| first_build_at(ts, i) {
        Some(ts[choose|i: int| first_build_at(ts, i)])
    } else {
        None
    }
}

/// Finds the first library target.
pub fn find_lib_target(ts: &Vec<Target>) -> (r: Option<&Target>)
    ensures
        r matches Some(t) ==> first_lib(ts@) == Some(*t),
        r is None ==> first_lib(ts@) is None,
{
    let mut i: usize = 0;
    while i < ts.len()
        invariant
            0 <= i <= ts@.len(),
            forall|j: int| 0 <= j < i ==> !is_lib_target(#[trigger] ts@[j]),
        decreases ts@.len() - i,
    {
        if ts[i].is_lib() {
            assert(first_lib_at(ts@, i as int));
            assert(forall|k: int| first_lib_at(ts@, k) ==> k == i);
            return Some(&ts[i]);
        }
        i = i + 1;
    }
    None
}

/// Finds the first build-script target.
pub fn find_build_target(ts: &Vec<Target>) -> (r: Option<&Target>)
    ensures
        r matches Some(t) ==> first_build(ts@) == Some(*t),
        r is None ==> first_build(ts@) is None,
{
    let mut i: usize = 0;
    while i < ts.len()
        invariant
            0 <= i <= ts@.len(),
            forall|j: int| 0 <= j < i ==> !is_build_target(#[trigger] ts@[j]),
        decreases ts@.len() - i,
    {
        if ts[i].is_build_script() {
            assert(first_build_at(ts@, i as int));
            assert(forall|k: int| first_build_at(ts@, k) ==> k == i);
            return Some(&ts[i]);
        }
        i = i + 1;
    }
    None
}

/// No two packages share an id.
pub open spec fn distinct_package_ids(ps: Seq<Package>) -> bool {
    forall|i: int, j: int| 0 <= i < ps.len() && 0 <= j < ps.len() && i != j ==> ps[i].id@ != ps[j].id@
}

/// The package with id `id`, if any.
pub open spec fn package_of(ps: Seq<Package>, id: Seq<char>) -> Option<Package> {
    if exists|i: int| 0 <= i < ps.len() && ps[i].id@ == id {
        Some(ps[choose|i: int| 0 <= i < ps.len() && ps[i].id@ == id])
    } else {
        None
    }
}

/// Finds the package with id `id`.
pub fn find_package<'a>(ps: &'a Vec<Package>, id: &String) -> (r: Option<&'a Package>)
    requires
        distinct_package_ids(ps@),
    ensures
        r matches Some(p) ==> package_of(ps@, id@) == Some(*p),
        r is None ==> package_of(ps@, id@) is None,
{
    let mut i: usize = 0;
    while i < ps.len()
        invariant
            0 <= i <= ps@.len(),
            distinct_package_ids(ps@),
            forall|j: int| 0 <= j < i ==> ps@[j].id@ != id@,
        decreases ps@.len() - i,
    {
        if ps[i].id == *id {
            assert(ps@[i as int].id@ == id@);
            let ghost k = choose|k: int| 0 <= k < ps@.len() && ps@[k].id@ == id@;
            assert(k == i);
            return Some(&ps[i]);
        }
        i = i + 1;
    }
    None
}

/// No two nodes share an id.
pub open spec fn distinct_node_ids(ns: Seq<Node>) -> bool {
    forall|i: int, j: int| 0 <= i < ns.len() && 0 <= j < ns.len() && i != j ==> ns[i].id@ != ns[j].id@
}

/// The node with id `id`, if any.
pub open spec fn node_of(ns: Seq<Node>, id: Seq<char>) -> Option<Node> {
    if exists|i: int| 0 <= i < ns.len() && ns[i].id@ == id {
        Some(ns[choose|i: int| 0 <= i < ns.len() && ns[i].id@ == id])
    } else {
        None
    }
}

/// Finds the node with id `id`.
pub fn find_node<'a>(ns: &'a Vec<Node>, id: &String) -> (r: Option<&'a Node>)
    requires
        distinct_node_ids(ns@),
    ensures
        r matches Some(n) ==> node_of(ns@, id@) == Some(*n),
        r is None ==> node_of(ns@, id@) is None,
{
    let mut i: usize = 0;
    while i < ns.len()
        invariant
            0 <= i <= ns@.len(),
            distinct_node_ids(ns@),
            forall|j: int| 0 <= j < i ==> ns@[j].id@ != id@,
        decreases ns@.len() - i,
    {
        if ns[i].id == *id {
            assert(ns@[i as int].id@ == id@);
            let ghost k = choose|k: int| 0 <= k < ns@.len() && ns@[k].id@ == id@;
            assert(k == i);
            return Some(&ns[i]);
        }
        i = i + 1;
    }
    None
}

impl BuckalContext {
    /// Package ids are unique, and so are the keys of both lookup tables.
    pub open spec fn wf(&self) -> bool {
        &&& distinct_package_ids(self.packages@)
        &&& distinct_node_ids(self.nodes@)
        &&& distinct_keys(self.checksums@)
        &&& distinct_keys(self.first_party@)
    }
}

/// The edge kind is of the wanted kind (build, or else normal) and its
/// platform, if it names one, is the active one.
pub open spec fn kind_active(dk: DepKindInfo, ctx: BuckalContext, build: bool) -> bool {
    &&& (if build { dk.kind == DependencyKind::Build } else { dk.kind == DependencyKind::Normal })
    &&& (dk.target matches Some(p) ==> predicate_holds(p, ctx.target@, ctx.cfgs@))
}

/// The edge takes part in a compilation: for a build script if `build`, for
/// a library or binary otherwise.
pub open spec fn edge_selected(d: NodeDep, ctx: BuckalContext, build: bool) -> bool {
    exists|i: int| 0 <= i < d.dep_kinds@.len() && kind_active(#[trigger] d.dep_kinds@[i], ctx, build)
}

/// Whether the edge takes part in a compilation.
pub fn check_edge(d: &NodeDep, ctx: &BuckalContext, build: bool) -> (r: bool)
    ensures
        r == edge_selected(*d, *ctx, build),
{
    let mut i: usize = 0;
    while i < d.dep_kinds.len()
        invariant
            0 <= i <= d.dep_kinds@.len(),
            forall|j: int| 0 <= j < i ==> !kind_active(#[trigger] d.dep_kinds@[j], *ctx, build),
        decreases d.dep_kinds@.len() - i,
    {
        let dk = &d.dep_kinds[i];
        let kind_ok = if build {
            dk.kind == DependencyKind::Build
        } else {
            dk.kind == DependencyKind::Normal
        };
        if kind_ok && check_dep_target(dk, ctx) {
            return true;
        }
        i = i + 1;
    }
    false
}

/// Whether the platform of the edge kind, if it names one, is the active one.
pub fn check_dep_target(dk: &DepKindInfo, ctx: &BuckalContext) -> (r: bool)
    ensures
        r == (dk.target matches Some(p) ==> predicate_holds(p, ctx.target@, ctx.cfgs@)),
{
    match &dk.target {
        None => true,
        Some(p) => p.matches(&ctx.target, &ctx.cfgs),
    }
}

/// The label of a workspace package's build target, if known.
pub open spec fn first_party_label(ctx: BuckalContext, p: Package) -> Option<Seq<char>> {
    if pairs_map(ctx.first_party@).contains_key(p.id@) {
        Some(pairs_map(ctx.first_party@)[p.id@])
    } else {
        None
    }
}

} // verus!
