//! The rule compiler: from one resolved node and its graph to the ordered
//! rule records of its build file.
use vstd::prelude::*;
use crate::graph::{
    BuckalContext, Node, NodeDep, Package, Target, check_edge, edge_selected, find_package,
    find_build_target, find_lib_target, first_build, first_lib, first_party_label, is_bin_target, is_lib_target, is_proc_macro_target, package_of,
};
use crate::rules::{
    BuildscriptRun, CargoManifest, FileGroup, Glob, HttpArchive, Rule, RustBinary, RustLibrary,
    same_rule,
};
use crate::strset::{
    distinct, distinct_keys, insert_str, map_get, map_insert, pairs_map, strs, union_into,
};

verus! {

/// Why a node cannot be compiled.
pub enum BuckalError {
    /// The graph has no package for this node id.
    MissingPackage(String),
    /// The package has no library target where one is required.
    NoLibraryTarget(String),
    /// A target's source file lies outside its package directory.
    SourceOutsideManifest(String),
    /// The lockfile has no checksum for this `<name>-<version>`.
    MissingChecksum(String),
    /// A workspace dependency has no known build target.
    UnresolvedFirstParty(String),
    /// A dependency declares `links` but has no build script.
    LinksWithoutBuildScript(String),
}

/// `s` with every `-` replaced by `_`.
pub open spec fn underscored(s: Seq<char>) -> Seq<char> {
    s.map_values(|c: char| if c == '-' { '_' } else { c })
}

/// `s` with every `-` replaced by `_`.
pub fn dashes_to_underscores(s: &str) -> (r: String)
    ensures
        r@ == underscored(s@),
{
    let n = s.unicode_len();
    let mut out = String::new();
    let mut i: usize = 0;
    assert(underscored(s@.subrange(0, 0)) =~= Seq::<char>::empty());
    while i < n
        invariant
            0 <= i <= n,
            n == s@.len(),
            out@ == underscored(s@.subrange(0, i as int)),
        decreases n - i,
    {
        if s.get_char(i) == '-' {
            proof {
                reveal_strlit("_");
            }
            out.append("_");
        } else {
            out.append(s.substring_char(i, i + 1));
        }
        assert(out@ =~= underscored(s@.subrange(0, i + 1)));
        i = i + 1;
    }
    assert(s@.subrange(0, n as int) =~= s@);
    out
}

/// The suffix that marks a build-script target name.
pub open spec fn build_suffix() -> Seq<char> {
    seq!['-', 'b', 'u', 'i', 'l', 'd']
}

/// The name of a build script without its `-build` suffix.
pub open spec fn build_name(s: Seq<char>) -> Seq<char> {
    if s.len() >= 6 && s.subrange(s.len() - 6, s.len() as int) == build_suffix() {
        s.subrange(0, s.len() - 6)
    } else {
        s
    }
}

/// The name of a build script without its `-build` suffix.
pub fn get_build_name(s: &String) -> (r: String)
    ensures
        r@ == build_name(s@),
{
    let n = s.as_str().unicode_len();
    if n >= 6 {
        let a = s.as_str().get_char(n - 6);
        let b = s.as_str().get_char(n - 5);
        let c = s.as_str().get_char(n - 4);
        let d = s.as_str().get_char(n - 3);
        let e = s.as_str().get_char(n - 2);
        let f = s.as_str().get_char(n - 1);
        let ghost tail = s@.subrange(n - 6, n as int);
        if a == '-' && b == 'b' && c == 'u' && d == 'i' && e == 'l' && f == 'd' {
            assert(tail =~= build_suffix());
            return String::from_str(s.as_str().substring_char(0, n - 6));
        }
        assert(tail != build_suffix()) by {
            if tail == build_suffix() {
                assert(tail[0] == '-' && tail[1] == 'b' && tail[2] == 'u');
                assert(tail[3] == 'i' && tail[4] == 'l' && tail[5] == 'd');
            }
        }
    }
    s.clone()
}

/// The part of `path` below the directory `dir`.
pub open spec fn below(path: Seq<char>, dir: Seq<char>) -> Option<Seq<char>> {
    if path.len() > dir.len() && path.subrange(0, dir.len() as int) == dir && path[dir.len() as int]
        == '/' {
        Some(path.subrange(dir.len() as int + 1, path.len() as int))
    } else {
        None
    }
}

/// The part of `path` below the directory `dir`, if `path` lies there.
pub fn strip_dir(path: &String, dir: &String) -> (r: Option<String>)
    ensures
        r matches Some(x) ==> below(path@, dir@) == Some(x@),
        r is None ==> below(path@, dir@) is None,
{
    let n = path.as_str().unicode_len();
    let m = dir.as_str().unicode_len();
    if n <= m {
        return None;
    }
    let mut i: usize = 0;
    while i < m
        invariant
            0 <= i <= m,
            m < n,
            n == path@.len(),
            m == dir@.len(),
            forall|j: int| 0 <= j < i ==> path@[j] == dir@[j],
        decreases m - i,
    {
        if path.as_str().get_char(i) != dir.as_str().get_char(i) {
            assert(path@.subrange(0, m as int)[i as int] != dir@[i as int]);
            return None;
        }
        i = i + 1;
    }
    assert(path@.subrange(0, m as int) =~= dir@);
    if path.as_str().get_char(m) != '/' {
        return None;
    }
    Some(String::from_str(path.as_str().substring_char(m + 1, n)))
}

/// The label of a registry package's library in the crates tree.
pub open spec fn third_party_label(p: Package) -> Seq<char> {
    "//third-party/rust/crates/"@ + p.name@ + "/"@ + p.version@ + ":"@ + p.name@
}

fn make_third_party_label(p: &Package) -> (r: String)
    ensures
        r@ == third_party_label(*p),
{
    let mut s = String::from_str("//third-party/rust/crates/");
    s.append(p.name.as_str());
    s.append("/");
    s.append(p.version.as_str());
    s.append(":");
    s.append(p.name.as_str());
    s
}

/// The label a dependency on `p` resolves to: the known build target of a
/// workspace package, or the path in the crates tree for a registry one.
pub open spec fn dep_label(ctx: BuckalContext, p: Package) -> Option<Seq<char>> {
    if p.source is None {
        first_party_label(ctx, p)
    } else {
        Some(third_party_label(p))
    }
}

/// What edge `d` adds to a compilation: whether it is renamed, the name the
/// dependent uses, and the label; `None` when it adds nothing.
pub open spec fn contribution(ctx: BuckalContext, d: NodeDep, build: bool) -> Option<(bool, Seq<char>, Seq<char>)> {
    match package_of(ctx.packages@, d.pkg@) {
        Some(p) => if edge_selected(d, ctx, build) {
            match dep_label(ctx, p) {
                Some(l) => Some((d.name@ != underscored(p.name@), d.name@, l)),
                None => None,
            }
        } else {
            None
        },
        None => None,
    }
}

/// Edge `d` takes part but its workspace package has no known label.
pub open spec fn edge_unresolved(ctx: BuckalContext, d: NodeDep, build: bool) -> bool {
    match package_of(ctx.packages@, d.pkg@) {
        Some(p) => edge_selected(d, ctx, build) && dep_label(ctx, p) is None,
        None => false,
    }
}

/// Some edge of `ds` takes part but cannot be resolved.
pub open spec fn deps_unresolved(ctx: BuckalContext, ds: Seq<NodeDep>, build: bool) -> bool {
    exists|i: int| 0 <= i < ds.len() && edge_unresolved(ctx, #[trigger] ds[i], build)
}

/// The labels that edges under their own name add to the dependency set.
pub open spec fn plain_deps(ctx: BuckalContext, ds: Seq<NodeDep>, build: bool) -> Set<Seq<char>> {
    Set::new(
        |l: Seq<char>|
            exists|i: int|
                0 <= i < ds.len() && contribution(ctx, #[trigger] ds[i], build) == Some(
                    (false, ds[i].name@, l),
                ),
    )
}

/// The entries that renamed edges add to the renamed-dependency map, a later
/// edge replacing an earlier one of the same name.
pub open spec fn named_deps_of(ctx: BuckalContext, ds: Seq<NodeDep>, build: bool) -> Map<Seq<char>, Seq<char>>
    decreases ds.len(),
{
    if ds.len() == 0 {
        Map::empty()
    } else {
        let m = named_deps_of(ctx, ds.drop_last(), build);
        match contribution(ctx, ds.last(), build) {
            Some((true, n, l)) => m.insert(n, l),
            _ => m,
        }
    }
}

/// Adds the dependencies of `node` to a rule's dependency set and renamed
/// dependency map: the build dependencies if `build`, the normal ones if not.
pub fn set_deps(
    deps: &mut Vec<String>,
    named_deps: &mut Vec<(String, String)>,
    node: &Node,
    ctx: &BuckalContext,
    build: bool,
) -> (r: Result<(), BuckalError>)
    requires
        ctx.wf(),
        distinct(old(deps)@),
        distinct_keys(old(named_deps)@),
    ensures
        r is Err <==> deps_unresolved(*ctx, node.deps@, build),
        r is Err ==> r->Err_0 is UnresolvedFirstParty,
        r is Ok ==> {
            &&& distinct(final(deps)@)
            &&& distinct_keys(final(named_deps)@)
            &&& strs(final(deps)@) == strs(old(deps)@) + plain_deps(*ctx, node.deps@, build)
            &&& pairs_map(final(named_deps)@) == pairs_map(old(named_deps)@).union_prefer_right(
                named_deps_of(*ctx, node.deps@, build),
            )
        },
{
    let ghost ds = node.deps@;
    let ghost d0 = deps@;
    let ghost n0 = named_deps@;
    let mut i: usize = 0;
    assert(strs(d0) + plain_deps(*ctx, ds.subrange(0, 0), build) =~= strs(d0));
    assert(pairs_map(n0).union_prefer_right(named_deps_of(*ctx, ds.subrange(0, 0), build)) =~= pairs_map(n0));
    while i < node.deps.len()
        invariant
            0 <= i <= ds.len(),
            ds == node.deps@,
            ctx.wf(),
            distinct(deps@),
            distinct_keys(named_deps@),
            strs(deps@) == strs(d0) + plain_deps(*ctx, ds.subrange(0, i as int), build),
            pairs_map(named_deps@) == pairs_map(n0).union_prefer_right(
                named_deps_of(*ctx, ds.subrange(0, i as int), build),
            ),
            !deps_unresolved(*ctx, ds.subrange(0, i as int), build),
        decreases ds.len() - i,
    {
        let d = &node.deps[i];
        let ghost pre = ds.subrange(0, i as int);
        let ghost post = ds.subrange(0, i + 1);
        assert(post.drop_last() =~= pre);
        assert(post.last() == *d);
        let ghost c = contribution(*ctx, *d, build);
        assert(forall|j: int| 0 <= j < i ==> #[trigger] post[j] == pre[j]);
        if let Some(p) = find_package(&ctx.packages, &d.pkg) {
            if check_edge(d, ctx, build) {
                let label = match &p.source {
                    None => match map_get(&ctx.first_party, &p.id) {
                        Some(l) => l.clone(),
                        None => {
                            assert(edge_unresolved(*ctx, ds[i as int], build));
                            return Err(BuckalError::UnresolvedFirstParty(p.name.clone()));
                        },
                    },
                    Some(_) => make_third_party_label(p),
                };
                assert(c == Some((d.name@ != underscored(p.name@), d.name@, label@)));
                let local = dashes_to_underscores(p.name.as_str());
                if d.name != local {
                    map_insert(named_deps, d.name.clone(), label);
                    assert(plain_deps(*ctx, post, build) =~= plain_deps(*ctx, pre, build));
                } else {
                    insert_str(deps, label);
                    assert(plain_deps(*ctx, post, build) =~= plain_deps(*ctx, pre, build).insert(label@)) by {
                        assert(post[i as int] == *d);
                    }
                }
            } else {
                assert(c is None);
                assert(plain_deps(*ctx, post, build) =~= plain_deps(*ctx, pre, build));
            }
        } else {
            assert(c is None);
            assert(plain_deps(*ctx, post, build) =~= plain_deps(*ctx, pre, build));
        }
        assert(!deps_unresolved(*ctx, post, build)) by {
            if deps_unresolved(*ctx, post, build) {
                let j = choose|j: int| 0 <= j < post.len() && edge_unresolved(*ctx, #[trigger] post[j], build);
                if j < i {
                    assert(edge_unresolved(*ctx, pre[j], build));
                }
            }
        }
        assert(strs(deps@) =~= strs(d0) + plain_deps(*ctx, post, build));
        assert(pairs_map(named_deps@) =~= pairs_map(n0).union_prefer_right(named_deps_of(*ctx, post, build)));
        i = i + 1;
    }
    assert(ds.subrange(0, ds.len() as int) =~= ds);
    Ok(())
}


/// The label of a package's vendored sources.
pub open spec fn vendor_target(p: Package) -> Seq<char> {
    ":"@ + p.name@ + "-vendor"@
}

/// The flag file that the manifest shim of a package provides.
pub open spec fn manifest_flags(p: Package) -> Seq<char> {
    "@$(location :"@ + p.name@ + "-manifest[env_flags])"@
}

/// The name of the rule that runs the build script `bt` of `p`.
pub open spec fn run_name(p: Package, bt: Target) -> Seq<char> {
    p.name@ + "-"@ + build_name(bt.name@) + "-run"@
}

/// The output directory that the run rule declares.
pub open spec fn out_dir_ref(p: Package, bt: Target) -> Seq<char> {
    "$(location :"@ + run_name(p, bt) + "[out_dir])"@
}

/// The compiler flags that the run rule declares.
pub open spec fn run_flags_ref(p: Package, bt: Target) -> Seq<char> {
    "@$(location :"@ + run_name(p, bt) + "[rustc_flags])"@
}

/// The environment variable that points at a build script's output.
pub open spec fn out_dir_key() -> Seq<char> {
    "OUT_DIR"@
}

/// The flags of a compilation, with those of the build script when there is one.
pub open spec fn compile_flags(p: Package, script: Option<Target>) -> Set<Seq<char>> {
    match script {
        Some(bt) => set![manifest_flags(p), run_flags_ref(p, bt)],
        None => set![manifest_flags(p)],
    }
}

/// The environment of a compilation, pointing at the build script's output
/// when there is one.
pub open spec fn compile_env(p: Package, script: Option<Target>) -> Map<Seq<char>, Seq<char>> {
    match script {
        Some(bt) => map![out_dir_key() => out_dir_ref(p, bt)],
        None => Map::empty(),
    }
}

/// The entry path of target `t` as the rule names it.
pub open spec fn crate_root_of(p: Package, t: Target) -> Option<Seq<char>> {
    match below(t.src_path@, p.manifest_dir@) {
        Some(rel) => Some("vendor/"@ + rel),
        None => None,
    }
}

/// `r` is the library rule for target `t` of `p`, named `name`, wired to the
/// build script `script` if there is one.
pub open spec fn library_rule(
    r: RustLibrary,
    ctx: BuckalContext,
    node: Node,
    p: Package,
    t: Target,
    name: Seq<char>,
    script: Option<Target>,
) -> bool {
    &&& r.wf()
    &&& r.name@ == name
    &&& strs(r.srcs@) == set![vendor_target(p)]
    &&& r.crate_name@ == underscored(t.name@)
    &&& crate_root_of(p, t) == Some(r.crate_root@)
    &&& r.edition@ == p.edition@
    &&& pairs_map(r.env@) == compile_env(p, script)
    &&& strs(r.features@) == strs(node.features@)
    &&& strs(r.rustc_flags@) == compile_flags(p, script)
    &&& r.proc_macro == (if is_proc_macro_target(t) { Some(true) } else { None::<bool> })
    &&& strs(r.visibility@) == set!["PUBLIC"@]
    &&& strs(r.deps@) == plain_deps(ctx, node.deps@, false)
    &&& pairs_map(r.named_deps@) == named_deps_of(ctx, node.deps@, false)
}

/// `r` is the binary rule for target `t` of `p`, named `name`, wired to the
/// build script `script` if there is one, with `extra` added to its
/// dependencies.
pub open spec fn binary_rule(
    r: RustBinary,
    ctx: BuckalContext,
    node: Node,
    p: Package,
    t: Target,
    name: Seq<char>,
    script: Option<Target>,
    extra: Set<Seq<char>>,
) -> bool {
    &&& r.wf()
    &&& r.name@ == name
    &&& strs(r.srcs@) == set![vendor_target(p)]
    &&& r.crate_name@ == underscored(t.name@)
    &&& crate_root_of(p, t) == Some(r.crate_root@)
    &&& r.edition@ == p.edition@
    &&& pairs_map(r.env@) == compile_env(p, script)
    &&& strs(r.features@) == strs(node.features@)
    &&& strs(r.rustc_flags@) == compile_flags(p, script)
    &&& strs(r.visibility@) == set!["PUBLIC"@]
    &&& strs(r.deps@) == plain_deps(ctx, node.deps@, false) + extra
    &&& pairs_map(r.named_deps@) == named_deps_of(ctx, node.deps@, false)
}

/// `r` is the rule that compiles the build script `bt` of `p`.
pub open spec fn script_binary_rule(r: RustBinary, ctx: BuckalContext, node: Node, p: Package, bt: Target) -> bool {
    &&& r.wf()
    &&& r.name@ == p.name@ + "-"@ + bt.name@
    &&& strs(r.srcs@) == set![vendor_target(p)]
    &&& r.crate_name@ == underscored(bt.name@)
    &&& crate_root_of(p, bt) == Some(r.crate_root@)
    &&& r.edition@ == p.edition@
    &&& pairs_map(r.env@) == Map::<Seq<char>, Seq<char>>::empty()
    &&& strs(r.features@) == strs(node.features@)
    &&& strs(r.rustc_flags@) == set![manifest_flags(p)]
    &&& strs(r.visibility@) == Set::<Seq<char>>::empty()
    &&& strs(r.deps@) == plain_deps(ctx, node.deps@, true)
    &&& pairs_map(r.named_deps@) == named_deps_of(ctx, node.deps@, true)
}

/// The package a normal, active edge reaches when that package declares a
/// `links` resource.
pub open spec fn links_dep(ctx: BuckalContext, d: NodeDep) -> Option<Package> {
    match package_of(ctx.packages@, d.pkg@) {
        Some(q) => if q.links is Some && edge_selected(d, ctx, false) {
            Some(q)
        } else {
            None
        },
        None => None,
    }
}

/// The metadata output of the run rule of `q`'s build script `qbt`.
pub open spec fn metadata_ref(q: Package, qbt: Target) -> Seq<char> {
    third_party_label(q) + "-"@ + build_name(qbt.name@) + "-run[metadata]"@
}

/// Some `links` dependency among `ds` has no build script.
pub open spec fn links_unbuilt(ctx: BuckalContext, ds: Seq<NodeDep>) -> bool {
    exists|i: int|
        0 <= i < ds.len() && (links_dep(ctx, #[trigger] ds[i]) matches Some(q) && first_build(
            q.targets@,
        ) is None)
}

/// The metadata outputs of the `links` dependencies among `ds`.
pub open spec fn links_refs(ctx: BuckalContext, ds: Seq<NodeDep>) -> Set<Seq<char>> {
    Set::new(
        |s: Seq<char>|
            exists|i: int|
                0 <= i < ds.len() && (links_dep(ctx, #[trigger] ds[i]) matches Some(q) && (first_build(
                    q.targets@,
                ) matches Some(qbt) && s == metadata_ref(q, qbt))),
    )
}

/// `r` is the rule that runs the build script `bt` of `p`.
pub open spec fn run_rule(r: BuildscriptRun, ctx: BuckalContext, node: Node, p: Package, bt: Target) -> bool {
    &&& r.wf()
    &&& r.name@ == run_name(p, bt)
    &&& r.package_name@ == p.name@
    &&& r.buildscript_rule@ == ":"@ + p.name@ + "-"@ + bt.name@
    &&& pairs_map(r.env@) == Map::<Seq<char>, Seq<char>>::empty()
    &&& strs(r.env_srcs@) == set![":"@ + p.name@ + "-manifest[env_dict]"@] + links_refs(ctx, node.deps@)
    &&& strs(r.features@) == strs(node.features@)
    &&& r.version@ == p.version@
    &&& r.manifest_dir@ == vendor_target(p)
    &&& strs(r.visibility@) == set!["PUBLIC"@]
}

/// The `<name>-<version>` of a package.
pub open spec fn name_version(p: Package) -> Seq<char> {
    p.name@ + "-"@ + p.version@
}

/// `r` is the archive rule of the registry package `p`.
pub open spec fn archive_rule(r: HttpArchive, ctx: BuckalContext, p: Package) -> bool {
    &&& r.wf()
    &&& r.name@ == p.name@ + "-vendor"@
    &&& strs(r.urls@) == set![
        "https://static.crates.io/crates/"@ + p.name@ + "/"@ + name_version(p) + ".crate"@,
    ]
    &&& pairs_map(ctx.checksums@).contains_key(name_version(p))
    &&& r.sha256@ == pairs_map(ctx.checksums@)[name_version(p)]
    &&& r._type@ == "tar.gz"@
    &&& r.strip_prefix@ == name_version(p)
    &&& (r.out matches Some(o) && o@ == "vendor"@)
}

/// `r` is the manifest shim of `p`.
pub open spec fn manifest_rule(r: CargoManifest, p: Package) -> bool {
    &&& r.name@ == p.name@ + "-manifest"@
    &&& r.vendor@ == vendor_target(p)
}

/// `r` is the group of all sources of the workspace package `p`.
pub open spec fn filegroup_rule(r: FileGroup, p: Package) -> bool {
    &&& r.wf()
    &&& r.name@ == p.name@ + "-vendor"@
    &&& strs(r.srcs.included@) == set!["**/**"@]
    &&& strs(r.srcs.excluded@) == Set::<Seq<char>>::empty()
    &&& (r.out matches Some(o) && o@ == "vendor"@)
}

fn single(s: String) -> (r: Vec<String>)
    ensures
        distinct(r@),
        strs(r@) == set![s@],
{
    let mut v: Vec<String> = Vec::new();
    v.push(s);
    assert(strs(v@) =~= set![s@]) by {
        assert(v@[0]@ == s@);
    }
    v
}

fn feature_set(fs: &Vec<String>) -> (r: Vec<String>)
    ensures
        distinct(r@),
        strs(r@) == strs(fs@),
{
    let mut v: Vec<String> = Vec::new();
    assert(strs(v@) =~= Set::<Seq<char>>::empty());
    union_into(&mut v, fs);
    assert(strs(v@) =~= strs(fs@));
    v
}

fn make_vendor_target(p: &Package) -> (r: String)
    ensures
        r@ == vendor_target(*p),
{
    let mut s = String::from_str(":");
    s.append(p.name.as_str());
    s.append("-vendor");
    s
}

fn make_manifest_flags(p: &Package) -> (r: String)
    ensures
        r@ == manifest_flags(*p),
{
    let mut s = String::from_str("@$(location :");
    s.append(p.name.as_str());
    s.append("-manifest[env_flags])");
    s
}

fn make_run_name(p: &Package, bt: &Target) -> (r: String)
    ensures
        r@ == run_name(*p, *bt),
{
    let bn = get_build_name(&bt.name);
    let mut s = p.name.clone();
    s.append("-");
    s.append(bn.as_str());
    s.append("-run");
    s
}

fn make_crate_root(p: &Package, t: &Target) -> (r: Result<String, BuckalError>)
    ensures
        r matches Ok(x) ==> crate_root_of(*p, *t) == Some(x@),
        r is Err ==> crate_root_of(*p, *t) is None && r->Err_0 is SourceOutsideManifest,
{
    match strip_dir(&t.src_path, &p.manifest_dir) {
        Some(rel) => {
            let mut s = String::from_str("vendor/");
            s.append(rel.as_str());
            Ok(s)
        },
        None => Err(BuckalError::SourceOutsideManifest(t.name.clone())),
    }
}

/// Points a compilation of `p` at the outputs of its build script `bt`: the
/// `OUT_DIR` variable and the extra compiler flags of the run rule.
pub fn patch_with_buildscript(
    env: &mut Vec<(String, String)>,
    rustc_flags: &mut Vec<String>,
    p: &Package,
    bt: &Target,
)
    requires
        distinct_keys(old(env)@),
        distinct(old(rustc_flags)@),
    ensures
        distinct_keys(final(env)@),
        distinct(final(rustc_flags)@),
        pairs_map(final(env)@) == pairs_map(old(env)@).insert(out_dir_key(), out_dir_ref(*p, *bt)),
        strs(final(rustc_flags)@) == strs(old(rustc_flags)@).insert(run_flags_ref(*p, *bt)),
{
    let run = make_run_name(p, bt);
    let mut out_dir = String::from_str("$(location :");
    out_dir.append(run.as_str());
    out_dir.append("[out_dir])");
    map_insert(env, String::from_str("OUT_DIR"), out_dir);
    let mut flags = String::from_str("@$(location :");
    flags.append(run.as_str());
    flags.append("[rustc_flags])");
    insert_str(rustc_flags, flags);
}

/// Emits the library rule for target `t` of `p`, wired to the build script
/// `script` if there is one.
pub fn emit_rust_library(
    p: &Package,
    node: &Node,
    ctx: &BuckalContext,
    t: &Target,
    name: String,
    script: Option<&Target>,
) -> (r: Result<RustLibrary, BuckalError>)
    requires
        ctx.wf(),
    ensures
        r is Err <==> crate_root_of(*p, *t) is None || deps_unresolved(*ctx, node.deps@, false),
        r matches Ok(lib) ==> library_rule(
            lib,
            *ctx,
            *node,
            *p,
            *t,
            name@,
            match script {
                Some(bt) => Some(*bt),
                None => None,
            },
        ),
{
    let crate_root = match make_crate_root(p, t) {
        Ok(c) => c,
        Err(e) => {
            return Err(e);
        },
    };
    let mut lib = RustLibrary {
        name,
        srcs: single(make_vendor_target(p)),
        crate_name: dashes_to_underscores(t.name.as_str()),
        crate_root,
        edition: p.edition.clone(),
        env: Vec::new(),
        features: feature_set(&node.features),
        rustc_flags: single(make_manifest_flags(p)),
        proc_macro: if t.is_proc_macro() {
            Some(true)
        } else {
            None
        },
        named_deps: Vec::new(),
        visibility: single(String::from_str("PUBLIC")),
        deps: Vec::new(),
    };
    assert(strs(lib.deps@) =~= Set::<Seq<char>>::empty());
    assert(pairs_map(lib.named_deps@) =~= Map::<Seq<char>, Seq<char>>::empty());
    assert(pairs_map(lib.env@) =~= Map::<Seq<char>, Seq<char>>::empty());
    match set_deps(&mut lib.deps, &mut lib.named_deps, node, ctx, false) {
        Ok(()) => {},
        Err(e) => {
            return Err(e);
        },
    }
    assert(strs(lib.deps@) =~= plain_deps(*ctx, node.deps@, false));
    assert(pairs_map(lib.named_deps@) =~= named_deps_of(*ctx, node.deps@, false));
    if let Some(bt) = script {
        patch_with_buildscript(&mut lib.env, &mut lib.rustc_flags, p, bt);
        assert(pairs_map(lib.env@) =~= compile_env(*p, Some(*bt)));
        assert(strs(lib.rustc_flags@) =~= compile_flags(*p, Some(*bt)));
    }
    Ok(lib)
}


/// The set holding `x`, if any.
pub open spec fn opt_set(x: Option<String>) -> Set<Seq<char>> {
    match x {
        Some(s) => set![s@],
        None => Set::empty(),
    }
}

/// Emits the binary rule for target `t` of `p`, wired to the build script
/// `script` if there is one, with the label `extra` added to its dependencies.
pub fn emit_rust_binary(
    p: &Package,
    node: &Node,
    ctx: &BuckalContext,
    t: &Target,
    name: String,
    script: Option<&Target>,
    extra: Option<String>,
) -> (r: Result<RustBinary, BuckalError>)
    requires
        ctx.wf(),
    ensures
        r is Err <==> crate_root_of(*p, *t) is None || deps_unresolved(*ctx, node.deps@, false),
        r matches Ok(bin) ==> binary_rule(
            bin,
            *ctx,
            *node,
            *p,
            *t,
            name@,
            match script {
                Some(bt) => Some(*bt),
                None => None,
            },
            opt_set(extra),
        ),
{
    let crate_root = match make_crate_root(p, t) {
        Ok(c) => c,
        Err(e) => {
            return Err(e);
        },
    };
    let mut bin = RustBinary {
        name,
        srcs: single(make_vendor_target(p)),
        crate_name: dashes_to_underscores(t.name.as_str()),
        crate_root,
        edition: p.edition.clone(),
        env: Vec::new(),
        features: feature_set(&node.features),
        rustc_flags: single(make_manifest_flags(p)),
        named_deps: Vec::new(),
        visibility: single(String::from_str("PUBLIC")),
        deps: Vec::new(),
    };
    assert(strs(bin.deps@) =~= Set::<Seq<char>>::empty());
    assert(pairs_map(bin.named_deps@) =~= Map::<Seq<char>, Seq<char>>::empty());
    assert(pairs_map(bin.env@) =~= Map::<Seq<char>, Seq<char>>::empty());
    match set_deps(&mut bin.deps, &mut bin.named_deps, node, ctx, false) {
        Ok(()) => {},
        Err(e) => {
            return Err(e);
        },
    }
    let ghost extra_set = opt_set(extra);
    match extra {
        Some(x) => {
            insert_str(&mut bin.deps, x);
        },
        None => {},
    }
    assert(strs(bin.deps@) =~= plain_deps(*ctx, node.deps@, false) + extra_set);
    assert(pairs_map(bin.named_deps@) =~= named_deps_of(*ctx, node.deps@, false));
    if let Some(bt) = script {
        patch_with_buildscript(&mut bin.env, &mut bin.rustc_flags, p, bt);
        assert(pairs_map(bin.env@) =~= compile_env(*p, Some(*bt)));
        assert(strs(bin.rustc_flags@) =~= compile_flags(*p, Some(*bt)));
    }
    Ok(bin)
}

/// Emits the rule that compiles the build script `bt` of `p`, with the build
/// dependencies of `node`.
pub fn emit_buildscript_build(
    bt: &Target,
    p: &Package,
    node: &Node,
    ctx: &BuckalContext,
) -> (r: Result<RustBinary, BuckalError>)
    requires
        ctx.wf(),
    ensures
        r is Err <==> crate_root_of(*p, *bt) is None || deps_unresolved(*ctx, node.deps@, true),
        r matches Ok(bin) ==> script_binary_rule(bin, *ctx, *node, *p, *bt),
{
    let crate_root = match make_crate_root(p, bt) {
        Ok(c) => c,
        Err(e) => {
            return Err(e);
        },
    };
    let mut name = p.name.clone();
    name.append("-");
    name.append(bt.name.as_str());
    let mut bin = RustBinary {
        name,
        srcs: single(make_vendor_target(p)),
        crate_name: dashes_to_underscores(bt.name.as_str()),
        crate_root,
        edition: p.edition.clone(),
        env: Vec::new(),
        features: feature_set(&node.features),
        rustc_flags: single(make_manifest_flags(p)),
        named_deps: Vec::new(),
        visibility: Vec::new(),
        deps: Vec::new(),
    };
    assert(strs(bin.deps@) =~= Set::<Seq<char>>::empty());
    assert(strs(bin.visibility@) =~= Set::<Seq<char>>::empty());
    assert(pairs_map(bin.named_deps@) =~= Map::<Seq<char>, Seq<char>>::empty());
    assert(pairs_map(bin.env@) =~= Map::<Seq<char>, Seq<char>>::empty());
    match set_deps(&mut bin.deps, &mut bin.named_deps, node, ctx, true) {
        Ok(()) => {},
        Err(e) => {
            return Err(e);
        },
    }
    assert(strs(bin.deps@) =~= plain_deps(*ctx, node.deps@, true));
    assert(pairs_map(bin.named_deps@) =~= named_deps_of(*ctx, node.deps@, true));
    Ok(bin)
}

/// Emits the rule that runs the build script `bt` of `p`. Each normal, active
/// dependency that declares a `links` resource hands its own run rule's
/// metadata to this one; such a dependency without a build script is an error.
pub fn emit_buildscript_run(
    p: &Package,
    node: &Node,
    ctx: &BuckalContext,
    bt: &Target,
) -> (r: Result<BuildscriptRun, BuckalError>)
    requires
        ctx.wf(),
    ensures
        r is Err <==> links_unbuilt(*ctx, node.deps@),
        r is Err ==> r->Err_0 is LinksWithoutBuildScript,
        r matches Ok(run) ==> run_rule(run, *ctx, *node, *p, *bt),
{
    let mut rule = String::from_str(":");
    rule.append(p.name.as_str());
    rule.append("-");
    rule.append(bt.name.as_str());
    let mut env_dict = String::from_str(":");
    env_dict.append(p.name.as_str());
    env_dict.append("-manifest[env_dict]");
    let ghost first = env_dict@;
    let mut env_srcs = single(env_dict);
    let ghost ds = node.deps@;
    let mut i: usize = 0;
    assert(set![first] + links_refs(*ctx, ds.subrange(0, 0)) =~= set![first]);
    while i < node.deps.len()
        invariant
            0 <= i <= ds.len(),
            ds == node.deps@,
            ctx.wf(),
            distinct(env_srcs@),
            strs(env_srcs@) == set![first] + links_refs(*ctx, ds.subrange(0, i as int)),
            !links_unbuilt(*ctx, ds.subrange(0, i as int)),
        decreases ds.len() - i,
    {
        let d = &node.deps[i];
        let ghost pre = ds.subrange(0, i as int);
        let ghost post = ds.subrange(0, i + 1);
        assert(post[i as int] == *d);
        assert(forall|j: int| 0 <= j < i ==> #[trigger] post[j] == pre[j]);
        let mut added = false;
        if let Some(q) = find_package(&ctx.packages, &d.pkg) {
            if q.links.is_some() && check_edge(d, ctx, false) {
                assert(links_dep(*ctx, *d) == Some(*q));
                match find_build_target(&q.targets) {
                    Some(qbt) => {
                        let qbn = get_build_name(&qbt.name);
                        let mut meta = make_third_party_label(q);
                        meta.append("-");
                        meta.append(qbn.as_str());
                        meta.append("-run[metadata]");
                        assert(meta@ == metadata_ref(*q, *qbt));
                        insert_str(&mut env_srcs, meta);
                        assert(links_refs(*ctx, post) =~= links_refs(*ctx, pre).insert(metadata_ref(*q, *qbt)));
                        added = true;
                    },
                    None => {
                        assert(links_unbuilt(*ctx, ds));
                        return Err(BuckalError::LinksWithoutBuildScript(q.name.clone()));
                    },
                }
            }
        }
        if !added {
            assert(links_dep(*ctx, *d) is None);
            assert(links_refs(*ctx, post) =~= links_refs(*ctx, pre));
        }
        assert(!links_unbuilt(*ctx, post)) by {
            if links_unbuilt(*ctx, post) {
                let j = choose|j: int|
                    0 <= j < post.len() && (links_dep(*ctx, #[trigger] post[j]) matches Some(q)
                        && first_build(q.targets@) is None);
                if j < i {
                    assert(links_unbuilt(*ctx, pre) && pre[j] == post[j]);
                }
            }
        }
        assert(strs(env_srcs@) =~= set![first] + links_refs(*ctx, post));
        i = i + 1;
    }
    assert(ds.subrange(0, ds.len() as int) =~= ds);
    let run = BuildscriptRun {
        name: make_run_name(p, bt),
        package_name: p.name.clone(),
        buildscript_rule: rule,
        env: Vec::new(),
        env_srcs,
        features: feature_set(&node.features),
        version: p.version.clone(),
        manifest_dir: make_vendor_target(p),
        visibility: single(String::from_str("PUBLIC")),
    };
    assert(pairs_map(run.env@) =~= Map::<Seq<char>, Seq<char>>::empty());
    Ok(run)
}

/// Emits the archive rule of the registry package `p`, with the checksum
/// that the lockfile gives for it.
pub fn emit_http_archive(p: &Package, ctx: &BuckalContext) -> (r: Result<HttpArchive, BuckalError>)
    requires
        ctx.wf(),
    ensures
        r is Err <==> !pairs_map(ctx.checksums@).contains_key(name_version(*p)),
        r is Err ==> r->Err_0 is MissingChecksum,
        r matches Ok(a) ==> archive_rule(a, *ctx, *p),
{
    let mut nv = p.name.clone();
    nv.append("-");
    nv.append(p.version.as_str());
    let checksum = match map_get(&ctx.checksums, &nv) {
        Some(c) => c.clone(),
        None => {
            return Err(BuckalError::MissingChecksum(nv));
        },
    };
    let mut url = String::from_str("https://static.crates.io/crates/");
    url.append(p.name.as_str());
    url.append("/");
    url.append(nv.as_str());
    url.append(".crate");
    let mut name = p.name.clone();
    name.append("-vendor");
    Ok(
        HttpArchive {
            name,
            urls: single(url),
            sha256: checksum,
            _type: String::from_str("tar.gz"),
            strip_prefix: nv,
            out: Some(String::from_str("vendor")),
        },
    )
}

/// Emits the group of all sources of the workspace package `p`.
pub fn emit_filegroup(p: &Package) -> (r: FileGroup)
    ensures
        filegroup_rule(r, *p),
{
    let mut name = p.name.clone();
    name.append("-vendor");
    let excluded: Vec<String> = Vec::new();
    assert(strs(excluded@) =~= Set::<Seq<char>>::empty());
    FileGroup {
        name,
        srcs: Glob { included: single(String::from_str("**/**")), excluded },
        out: Some(String::from_str("vendor")),
    }
}

/// Emits the manifest shim of `p`.
pub fn emit_cargo_manifest(p: &Package) -> (r: CargoManifest)
    ensures
        manifest_rule(r, *p),
{
    let mut name = p.name.clone();
    name.append("-manifest");
    CargoManifest { name, vendor: make_vendor_target(p) }
}


/// Compiling the dependency `node` fails: its package, its library target or
/// its checksum is missing, or one of its rules cannot be emitted.
pub open spec fn dep_node_fails(ctx: BuckalContext, node: Node) -> bool {
    match package_of(ctx.packages@, node.id@) {
        None => true,
        Some(p) => match first_lib(p.targets@) {
            None => true,
            Some(t) => {
                ||| !pairs_map(ctx.checksums@).contains_key(name_version(p))
                ||| crate_root_of(p, t) is None
                ||| deps_unresolved(ctx, node.deps@, false)
                ||| (first_build(p.targets@) matches Some(bt) && (crate_root_of(p, bt) is None
                    || deps_unresolved(ctx, node.deps@, true) || links_unbuilt(ctx, node.deps@)))
            },
        },
    }
}

/// `rules` are the rules of the dependency `node`: its archive, its manifest
/// shim and the library of its first library target; then, when it has a
/// build script, the rule compiling it and the rule running it, with the
/// library wired to the latter.
pub open spec fn dep_node_rules(ctx: BuckalContext, node: Node, rules: Seq<Rule>) -> bool {
    &&& package_of(ctx.packages@, node.id@) matches Some(p)
    &&& first_lib(p.targets@) matches Some(t)
    &&& rules.len() == (if first_build(p.targets@) is Some { 5int } else { 3int })
    &&& rules[0] matches Rule::HttpArchive(a) && archive_rule(a, ctx, p)
    &&& rules[1] matches Rule::CargoManifest(m) && manifest_rule(m, p)
    &&& rules[2] matches Rule::RustLibrary(l) && library_rule(
        l,
        ctx,
        node,
        p,
        t,
        p.name@,
        first_build(p.targets@),
    )
    &&& first_build(p.targets@) matches Some(bt) ==> {
        &&& rules[3] matches Rule::RustBinary(b) && script_binary_rule(b, ctx, node, p, bt)
        &&& rules[4] matches Rule::BuildscriptRun(r) && run_rule(r, ctx, node, p, bt)
    }
}

/// Compiles the node of a registry dependency into its rules.
pub fn buckify_dep_node(node: &Node, ctx: &BuckalContext) -> (r: Result<Vec<Rule>, BuckalError>)
    requires
        ctx.wf(),
    ensures
        r is Err <==> dep_node_fails(*ctx, *node),
        r matches Ok(rules) ==> dep_node_rules(*ctx, *node, rules@),
{
    let p = match find_package(&ctx.packages, &node.id) {
        Some(p) => p,
        None => {
            return Err(BuckalError::MissingPackage(node.id.clone()));
        },
    };
    let lib_target = match find_lib_target(&p.targets) {
        Some(t) => t,
        None => {
            return Err(BuckalError::NoLibraryTarget(p.name.clone()));
        },
    };
    let script = find_build_target(&p.targets);
    let ghost gscript = first_build(p.targets@);
    assert(gscript == match script {
        Some(bt) => Some(*bt),
        None => None,
    });
    let mut rules: Vec<Rule> = Vec::new();
    let archive = match emit_http_archive(p, ctx) {
        Ok(a) => a,
        Err(e) => {
            return Err(e);
        },
    };
    rules.push(Rule::HttpArchive(archive));
    rules.push(Rule::CargoManifest(emit_cargo_manifest(p)));
    let lib = match emit_rust_library(p, node, ctx, lib_target, p.name.clone(), script) {
        Ok(l) => l,
        Err(e) => {
            return Err(e);
        },
    };
    rules.push(Rule::RustLibrary(lib));
    if let Some(bt) = script {
        let build = match emit_buildscript_build(bt, p, node, ctx) {
            Ok(b) => b,
            Err(e) => {
                return Err(e);
            },
        };
        rules.push(Rule::RustBinary(build));
        let run = match emit_buildscript_run(p, node, ctx, bt) {
            Ok(r) => r,
            Err(e) => {
                return Err(e);
            },
        };
        rules.push(Rule::BuildscriptRun(run));
    }
    Ok(rules)
}

/// A package with a build script compiles to exactly one host library, one
/// rule compiling the script and one rule running it; the library's
/// `OUT_DIR` and extra flags name the run rule by its declared name, and the
/// run rule names the compile rule by its declared name.
pub proof fn lemma_buildscript_wiring(ctx: BuckalContext, node: Node, rules: Seq<Rule>)
    requires
        dep_node_rules(ctx, node, rules),
        package_of(ctx.packages@, node.id@) matches Some(p) && first_build(p.targets@) is Some,
    ensures
        rules.len() == 5,
        forall|i: int| 0 <= i < rules.len() && (#[trigger] rules[i]) is BuildscriptRun ==> i == 4,
        forall|i: int| 0 <= i < rules.len() && (#[trigger] rules[i]) is RustBinary ==> i == 3,
        forall|i: int| 0 <= i < rules.len() && (#[trigger] rules[i]) is RustLibrary ==> i == 2,
        rules[2] is RustLibrary && rules[3] is RustBinary && rules[4] is BuildscriptRun,
        pairs_map(rules[2]->RustLibrary_0.env@).contains_key(out_dir_key()),
        pairs_map(rules[2]->RustLibrary_0.env@)[out_dir_key()] == "$(location :"@
            + rules[4]->BuildscriptRun_0.name@ + "[out_dir])"@,
        strs(rules[2]->RustLibrary_0.rustc_flags@).contains(
            "@$(location :"@ + rules[4]->BuildscriptRun_0.name@ + "[rustc_flags])"@,
        ),
        rules[4]->BuildscriptRun_0.buildscript_rule@ == ":"@ + rules[3]->RustBinary_0.name@,
{
    let p = package_of(ctx.packages@, node.id@)->Some_0;
    let bt = first_build(p.targets@)->Some_0;
    let b = rules[3]->RustBinary_0;
    assert(":"@ + b.name@ =~= ":"@ + p.name@ + "-"@ + bt.name@);
    assert(compile_flags(p, Some(bt)).contains(run_flags_ref(p, bt)));
}


/// The binary targets of `ts`, in order.
pub open spec fn bins_of(ts: Seq<Target>) -> Seq<Target> {
    ts.filter(|t: Target| is_bin_target(t))
}

/// The library targets of `ts`, in order.
pub open spec fn libs_of(ts: Seq<Target>) -> Seq<Target> {
    ts.filter(|t: Target| is_lib_target(t))
}

/// Some binary target of `ts` is named `n`.
pub open spec fn has_bin_named(ts: Seq<Target>, n: Seq<char>) -> bool {
    exists|k: int| 0 <= k < ts.len() && is_bin_target(#[trigger] ts[k]) && ts[k].name@ == n
}

/// Some library target of `ts` is named `n`.
pub open spec fn has_lib_named(ts: Seq<Target>, n: Seq<char>) -> bool {
    exists|k: int| 0 <= k < ts.len() && is_lib_target(#[trigger] ts[k]) && ts[k].name@ == n
}

/// Whether some target of `ts` of the wanted sort (library if `lib`, binary
/// if not) is named `n`.
fn has_target_named(ts: &Vec<Target>, n: &String, lib: bool) -> (r: bool)
    ensures
        r == (if lib { has_lib_named(ts@, n@) } else { has_bin_named(ts@, n@) }),
{
    let mut i: usize = 0;
    while i < ts.len()
        invariant
            0 <= i <= ts@.len(),
            forall|k: int|
                0 <= k < i ==> !((if lib { is_lib_target(#[trigger] ts@[k]) } else { is_bin_target(ts@[k]) })
                    && ts@[k].name@ == n@),
        decreases ts@.len() - i,
    {
        let sort_ok = if lib {
            ts[i].is_lib()
        } else {
            ts[i].is_bin()
        };
        if sort_ok && ts[i].name == *n {
            return true;
        }
        i = i + 1;
    }
    false
}

/// The name of the rule for library target `t` of the root: prefixed with
/// `lib` when a binary target has the same name.
pub open spec fn root_lib_name(ts: Seq<Target>, t: Target) -> Seq<char> {
    if has_bin_named(ts, t.name@) {
        "lib"@ + t.name@
    } else {
        t.name@
    }
}

/// The extra dependency of the root's binary target `t`: the library of the
/// same name, when there is one.
pub open spec fn root_bin_extra(ts: Seq<Target>, t: Target) -> Set<Seq<char>> {
    if has_lib_named(ts, t.name@) {
        set![":lib"@ + t.name@]
    } else {
        Set::empty()
    }
}

/// `r` is the rule of the root's binary target `t`.
pub open spec fn bin_slot(r: Rule, ctx: BuckalContext, node: Node, p: Package, t: Target, script: Option<Target>) -> bool {
    r matches Rule::RustBinary(b) && binary_rule(b, ctx, node, p, t, t.name@, script, root_bin_extra(p.targets@, t))
}

/// `r` is the rule of the root's library target `t`.
pub open spec fn lib_slot(r: Rule, ctx: BuckalContext, node: Node, p: Package, t: Target, script: Option<Target>) -> bool {
    r matches Rule::RustLibrary(l) && library_rule(l, ctx, node, p, t, root_lib_name(p.targets@, t), script)
}

/// Compiling the root `node` fails: its package is missing, or one of its
/// rules cannot be emitted.
pub open spec fn root_node_fails(ctx: BuckalContext, node: Node) -> bool {
    match package_of(ctx.packages@, node.id@) {
        None => true,
        Some(p) => {
            let ts = p.targets@;
            ||| exists|k: int|
                0 <= k < ts.len() && (is_bin_target(#[trigger] ts[k]) || is_lib_target(ts[k]))
                    && crate_root_of(p, ts[k]) is None
            ||| (exists|k: int|
                0 <= k < ts.len() && (is_bin_target(#[trigger] ts[k]) || is_lib_target(ts[k])))
                && deps_unresolved(ctx, node.deps@, false)
            ||| (first_build(ts) matches Some(bt) && (crate_root_of(p, bt) is None
                || deps_unresolved(ctx, node.deps@, true) || links_unbuilt(ctx, node.deps@)))
        },
    }
}

/// `rules` are the rules of the root `node`: the group of its sources, its
/// manifest shim, one binary rule per binary target, one library rule per
/// library target, then, when it has a build script, the rule compiling it
/// and the rule running it, with every binary and library wired to the latter.
pub open spec fn root_node_rules(ctx: BuckalContext, node: Node, rules: Seq<Rule>) -> bool {
    &&& package_of(ctx.packages@, node.id@) matches Some(p)
    &&& {
        let ts = p.targets@;
        let bins = bins_of(ts);
        let libs = libs_of(ts);
        let script = first_build(ts);
        let n = 2 + bins.len() as int + libs.len() as int;
        &&& rules.len() == n + (if script is Some { 2int } else { 0int })
        &&& rules[0] matches Rule::FileGroup(f) && filegroup_rule(f, p)
        &&& rules[1] matches Rule::CargoManifest(m) && manifest_rule(m, p)
        &&& forall|i: int| 0 <= i < bins.len() ==> bin_slot(#[trigger] rules[2 + i], ctx, node, p, bins[i], script)
        &&& forall|j: int|
            0 <= j < libs.len() ==> lib_slot(#[trigger] rules[2 + bins.len() + j], ctx, node, p, libs[j], script)
        &&& script matches Some(bt) ==> {
            &&& rules[n] matches Rule::RustBinary(b) && script_binary_rule(b, ctx, node, p, bt)
            &&& rules[n + 1] matches Rule::BuildscriptRun(r) && run_rule(r, ctx, node, p, bt)
        }
    }
}

/// Compiles the node of the root package into its rules.
pub fn buckify_root_node(node: &Node, ctx: &BuckalContext) -> (r: Result<Vec<Rule>, BuckalError>)
    requires
        ctx.wf(),
    ensures
        r is Err <==> root_node_fails(*ctx, *node),
        r matches Ok(rules) ==> root_node_rules(*ctx, *node, rules@),
{
    let p = match find_package(&ctx.packages, &node.id) {
        Some(p) => p,
        None => {
            return Err(BuckalError::MissingPackage(node.id.clone()));
        },
    };
    let ghost ts = p.targets@;
    let ghost gp = *p;
    let script = find_build_target(&p.targets);
    let ghost gscript = first_build(ts);
    assert(gscript == match script {
        Some(bt) => Some(*bt),
        None => None,
    });
    let mut rules: Vec<Rule> = Vec::new();
    rules.push(Rule::FileGroup(emit_filegroup(p)));
    rules.push(Rule::CargoManifest(emit_cargo_manifest(p)));
    let mut i: usize = 0;
    proof {
        reveal(Seq::filter);
    }
    assert(bins_of(ts.subrange(0, 0)) =~= Seq::<Target>::empty());
    while i < p.targets.len()
        invariant
            0 <= i <= ts.len(),
            ts == p.targets@,
            gp == *p,
            ctx.wf(),
            package_of(ctx.packages@, node.id@) == Some(gp),
            gscript == first_build(ts),
            gscript == match script {
                Some(bt) => Some(*bt),
                None => None,
            },
            rules@.len() == 2 + bins_of(ts.subrange(0, i as int)).len(),
            rules@[0] matches Rule::FileGroup(f) && filegroup_rule(f, gp),
            rules@[1] matches Rule::CargoManifest(m) && manifest_rule(m, gp),
            forall|k: int|
                0 <= k < bins_of(ts.subrange(0, i as int)).len() ==> bin_slot(
                    #[trigger] rules@[2 + k],
                    *ctx,
                    *node,
                    gp,
                    bins_of(ts.subrange(0, i as int))[k],
                    gscript,
                ),
            bins_of(ts.subrange(0, i as int)).len() > 0 ==> !deps_unresolved(*ctx, node.deps@, false),
            forall|k: int|
                0 <= k < i && is_bin_target(#[trigger] ts[k]) ==> crate_root_of(gp, ts[k]) is Some,
        decreases ts.len() - i,
    {
        let t = &p.targets[i];
        let ghost pre = ts.subrange(0, i as int);
        let ghost post = ts.subrange(0, i + 1);
        assert(post.drop_last() =~= pre);
        assert(post.last() == *t);
        proof {
            reveal(Seq::filter);
        }
        if t.is_bin() {
            assert(bins_of(post) == bins_of(pre).push(*t));
            let extra = if has_target_named(&p.targets, &t.name, true) {
                let mut x = String::from_str(":lib");
                x.append(t.name.as_str());
                Some(x)
            } else {
                None
            };
            let ghost gextra = opt_set(extra);
            assert(gextra =~= root_bin_extra(ts, *t));
            match emit_rust_binary(p, node, ctx, t, t.name.clone(), script, extra) {
                Ok(b) => {
                    let ghost prev = rules@;
                    rules.push(Rule::RustBinary(b));
                    proof {
                        assert forall|k: int| 0 <= k < bins_of(post).len() implies bin_slot(
                            #[trigger] rules@[2 + k],
                            *ctx,
                            *node,
                            gp,
                            bins_of(post)[k],
                            gscript,
                        ) by {
                            if k < bins_of(pre).len() {
                                assert(rules@[2 + k] == prev[2 + k]);
                                assert(bins_of(post)[k] == bins_of(pre)[k]);
                            } else {
                                assert(bins_of(post)[k] == *t);
                            }
                        }
                    }
                },
                Err(e) => {
                    proof {
                        assert(is_bin_target(ts[i as int]));
                    }
                    return Err(e);
                },
            }
        } else {
            assert(bins_of(post) == bins_of(pre));
        }
        i = i + 1;
    }
    assert(ts.subrange(0, ts.len() as int) =~= ts);
    let ghost nb = bins_of(ts).len();
    let mut j: usize = 0;
    proof {
        reveal(Seq::filter);
    }
    assert(libs_of(ts.subrange(0, 0)) =~= Seq::<Target>::empty());
    while j < p.targets.len()
        invariant
            0 <= j <= ts.len(),
            ts == p.targets@,
            gp == *p,
            ctx.wf(),
            package_of(ctx.packages@, node.id@) == Some(gp),
            gscript == first_build(ts),
            gscript == match script {
                Some(bt) => Some(*bt),
                None => None,
            },
            nb == bins_of(ts).len(),
            rules@.len() == 2 + nb + libs_of(ts.subrange(0, j as int)).len(),
            rules@[0] matches Rule::FileGroup(f) && filegroup_rule(f, gp),
            rules@[1] matches Rule::CargoManifest(m) && manifest_rule(m, gp),
            forall|k: int| 0 <= k < nb ==> bin_slot(#[trigger] rules@[2 + k], *ctx, *node, gp, bins_of(ts)[k], gscript),
            forall|k: int|
                0 <= k < libs_of(ts.subrange(0, j as int)).len() ==> lib_slot(
                    #[trigger] rules@[2 + nb + k],
                    *ctx,
                    *node,
                    gp,
                    libs_of(ts.subrange(0, j as int))[k],
                    gscript,
                ),
            nb + libs_of(ts.subrange(0, j as int)).len() > 0 ==> !deps_unresolved(*ctx, node.deps@, false),
            forall|k: int| 0 <= k < ts.len() && is_bin_target(#[trigger] ts[k]) ==> crate_root_of(gp, ts[k]) is Some,
            forall|k: int| 0 <= k < j && is_lib_target(#[trigger] ts[k]) ==> crate_root_of(gp, ts[k]) is Some,
        decreases ts.len() - j,
    {
        let t = &p.targets[j];
        let ghost pre = ts.subrange(0, j as int);
        let ghost post = ts.subrange(0, j + 1);
        assert(post.drop_last() =~= pre);
        assert(post.last() == *t);
        proof {
            reveal(Seq::filter);
        }
        if t.is_lib() {
            assert(libs_of(post) == libs_of(pre).push(*t));
            let name = if has_target_named(&p.targets, &t.name, false) {
                let mut x = String::from_str("lib");
                x.append(t.name.as_str());
                x
            } else {
                t.name.clone()
            };
            assert(name@ == root_lib_name(ts, *t));
            match emit_rust_library(p, node, ctx, t, name, script) {
                Ok(l) => {
                    let ghost prev = rules@;
                    rules.push(Rule::RustLibrary(l));
                    proof {
                        assert forall|k: int| 0 <= k < libs_of(post).len() implies lib_slot(
                            #[trigger] rules@[2 + nb + k],
                            *ctx,
                            *node,
                            gp,
                            libs_of(post)[k],
                            gscript,
                        ) by {
                            if k < libs_of(pre).len() {
                                assert(rules@[2 + nb + k] == prev[2 + nb + k]);
                                assert(libs_of(post)[k] == libs_of(pre)[k]);
                            } else {
                                assert(libs_of(post)[k] == *t);
                            }
                        }
                    }
                },
                Err(e) => {
                    proof {
                        assert(is_lib_target(ts[j as int]));
                    }
                    return Err(e);
                },
            }
        } else {
            assert(libs_of(post) == libs_of(pre));
        }
        j = j + 1;
    }
    let ghost nl = libs_of(ts).len();
    assert(nb + nl > 0 ==> !deps_unresolved(*ctx, node.deps@, false));
    assert(forall|k: int| 0 <= k < ts.len() && (is_bin_target(#[trigger] ts[k]) || is_lib_target(ts[k])) ==> crate_root_of(gp, ts[k]) is Some);
    assert((exists|k: int| 0 <= k < ts.len() && (is_bin_target(#[trigger] ts[k]) || is_lib_target(ts[k]))) ==> nb + nl > 0) by {
        if exists|k: int| 0 <= k < ts.len() && (is_bin_target(#[trigger] ts[k]) || is_lib_target(ts[k])) {
            let k = choose|k: int| 0 <= k < ts.len() && (is_bin_target(#[trigger] ts[k]) || is_lib_target(ts[k]));
            if is_bin_target(ts[k]) {
                broadcast use vstd::seq_lib::group_filter_ensures;
                assert(bins_of(ts).contains(ts[k]));
            } else {
                broadcast use vstd::seq_lib::group_filter_ensures;
                assert(libs_of(ts).contains(ts[k]));
            }
        }
    }
    if let Some(bt) = script {
        let build = match emit_buildscript_build(bt, p, node, ctx) {
            Ok(b) => b,
            Err(e) => {
                return Err(e);
            },
        };
        rules.push(Rule::RustBinary(build));
        let run = match emit_buildscript_run(p, node, ctx, bt) {
            Ok(r) => r,
            Err(e) => {
                return Err(e);
            },
        };
        rules.push(Rule::BuildscriptRun(run));
    }
    Ok(rules)
}

/// Compiling an unchanged dependency node twice gives the same rules: the
/// same kinds, in the same order, with the same fields.
pub proof fn lemma_dep_compile_deterministic(ctx: BuckalContext, node: Node, a: Seq<Rule>, b: Seq<Rule>)
    requires
        dep_node_rules(ctx, node, a),
        dep_node_rules(ctx, node, b),
    ensures
        a.len() == b.len(),
        forall|i: int| 0 <= i < a.len() ==> same_rule(#[trigger] a[i], b[i]),
{
    assert forall|i: int| 0 <= i < a.len() implies same_rule(#[trigger] a[i], b[i]) by {
        assert(a[i].scalar_fields() =~= b[i].scalar_fields());
        assert(a[i].set_fields() =~= b[i].set_fields());
        assert(a[i].map_fields() =~= b[i].map_fields());
    }
}

/// Compiling an unchanged root node twice gives the same rules: the same
/// kinds, in the same order, with the same fields.
pub proof fn lemma_root_compile_deterministic(ctx: BuckalContext, node: Node, a: Seq<Rule>, b: Seq<Rule>)
    requires
        root_node_rules(ctx, node, a),
        root_node_rules(ctx, node, b),
    ensures
        a.len() == b.len(),
        forall|i: int| 0 <= i < a.len() ==> same_rule(#[trigger] a[i], b[i]),
{
    let p = package_of(ctx.packages@, node.id@)->Some_0;
    let ts = p.targets@;
    let nb = bins_of(ts).len() as int;
    let nl = libs_of(ts).len() as int;
    assert forall|i: int| 0 <= i < a.len() implies same_rule(#[trigger] a[i], b[i]) by {
        if 2 <= i < 2 + nb {
            assert(bin_slot(a[2 + (i - 2)], ctx, node, p, bins_of(ts)[i - 2], first_build(ts)));
            assert(bin_slot(b[2 + (i - 2)], ctx, node, p, bins_of(ts)[i - 2], first_build(ts)));
        } else if 2 + nb <= i < 2 + nb + nl {
            let j = i - 2 - nb;
            assert(lib_slot(a[2 + bins_of(ts).len() + j], ctx, node, p, libs_of(ts)[j], first_build(ts)));
            assert(lib_slot(b[2 + bins_of(ts).len() + j], ctx, node, p, libs_of(ts)[j], first_build(ts)));
        }
        assert(a[i].scalar_fields() =~= b[i].scalar_fields());
        assert(a[i].set_fields() =~= b[i].set_fields());
        assert(a[i].map_fields() =~= b[i].map_fields());
    }
}

/// A root package with a build script compiles to exactly one rule running
/// it, preceded by the one rule compiling it; every binary and library rule
/// of the package points its `OUT_DIR` and extra flags at the run rule's
/// declared name.
pub proof fn lemma_root_buildscript_wiring(ctx: BuckalContext, node: Node, rules: Seq<Rule>)
    requires
        root_node_rules(ctx, node, rules),
        package_of(ctx.packages@, node.id@) matches Some(p) && first_build(p.targets@) is Some,
    ensures
        rules.len() >= 4,
        rules.last() is BuildscriptRun,
        rules[rules.len() - 2] is RustBinary,
        forall|i: int| 0 <= i < rules.len() && (#[trigger] rules[i]) is BuildscriptRun ==> i == rules.len() - 1,
        rules.last()->BuildscriptRun_0.buildscript_rule@ == ":"@ + rules[rules.len() - 2]->RustBinary_0.name@,
        forall|i: int|
            2 <= i < rules.len() - 2 ==> match #[trigger] rules[i] {
                Rule::RustBinary(b) => pairs_map(b.env@).contains_key(out_dir_key()) && pairs_map(b.env@)[out_dir_key()]
                    == "$(location :"@ + rules.last()->BuildscriptRun_0.name@ + "[out_dir])"@ && strs(b.rustc_flags@).contains(
                    "@$(location :"@ + rules.last()->BuildscriptRun_0.name@ + "[rustc_flags])"@,
                ),
                Rule::RustLibrary(l) => pairs_map(l.env@).contains_key(out_dir_key()) && pairs_map(l.env@)[out_dir_key()]
                    == "$(location :"@ + rules.last()->BuildscriptRun_0.name@ + "[out_dir])"@ && strs(l.rustc_flags@).contains(
                    "@$(location :"@ + rules.last()->BuildscriptRun_0.name@ + "[rustc_flags])"@,
                ),
                _ => false,
            },
{
    let p = package_of(ctx.packages@, node.id@)->Some_0;
    let ts = p.targets@;
    let bt = first_build(ts)->Some_0;
    let nb = bins_of(ts).len() as int;
    let nl = libs_of(ts).len() as int;
    let n = 2 + nb + nl;
    assert(rules.len() == n + 2);
    let b = rules[n]->RustBinary_0;
    assert(":"@ + b.name@ =~= ":"@ + p.name@ + "-"@ + bt.name@);
    assert(compile_flags(p, Some(bt)).contains(run_flags_ref(p, bt)));
    assert forall|i: int| 0 <= i < rules.len() && (#[trigger] rules[i]) is BuildscriptRun implies i == rules.len() - 1 by {
        if 2 <= i < 2 + nb {
            assert(bin_slot(rules[2 + (i - 2)], ctx, node, p, bins_of(ts)[i - 2], first_build(ts)));
        } else if 2 + nb <= i < n {
            let j = i - 2 - nb;
            assert(lib_slot(rules[2 + bins_of(ts).len() + j], ctx, node, p, libs_of(ts)[j], first_build(ts)));
        }
    }
    assert forall|i: int| 2 <= i < rules.len() - 2 implies match #[trigger] rules[i] {
        Rule::RustBinary(b) => pairs_map(b.env@).contains_key(out_dir_key()) && pairs_map(b.env@)[out_dir_key()]
            == "$(location :"@ + rules.last()->BuildscriptRun_0.name@ + "[out_dir])"@ && strs(b.rustc_flags@).contains(
            "@$(location :"@ + rules.last()->BuildscriptRun_0.name@ + "[rustc_flags])"@,
        ),
        Rule::RustLibrary(l) => pairs_map(l.env@).contains_key(out_dir_key()) && pairs_map(l.env@)[out_dir_key()]
            == "$(location :"@ + rules.last()->BuildscriptRun_0.name@ + "[out_dir])"@ && strs(l.rustc_flags@).contains(
            "@$(location :"@ + rules.last()->BuildscriptRun_0.name@ + "[rustc_flags])"@,
        ),
        _ => false,
    } by {
        if i < 2 + nb {
            assert(bin_slot(rules[2 + (i - 2)], ctx, node, p, bins_of(ts)[i - 2], first_build(ts)));
        } else {
            let j = i - 2 - nb;
            assert(lib_slot(rules[2 + bins_of(ts).len() + j], ctx, node, p, libs_of(ts)[j], first_build(ts)));
        }
    }
}

} // verus!
