use buckal::buckify::{
    buckify_dep_node, buckify_root_node, dashes_to_underscores, get_build_name, BuckalError,
};
use buckal::graph::{
    BuckalContext, DepKindInfo, DependencyKind, Node, NodeDep, Package, Target, TargetKind,
};
use buckal::predicate::{Cfg, CfgExpr, PlatformPredicate};
use buckal::cache::{BuckalCache, ChangeType};
use buckal::plan::{plan_change, Action, PlanError};
use buckal::rules::{patch_buck_rules, Rule};

fn s(x: &str) -> String {
    x.to_string()
}

fn target(name: &str, kind: TargetKind, src: &str) -> Target {
    Target { name: s(name), kind: vec![kind], src_path: s(src) }
}

fn registry_pkg(name: &str, version: &str, links: Option<&str>, targets: Vec<Target>) -> Package {
    Package {
        id: format!("registry+https://github.com/rust-lang/crates.io-index#{}@{}", name, version),
        name: s(name),
        version: s(version),
        source: Some(s("registry+https://github.com/rust-lang/crates.io-index")),
        manifest_dir: format!("/reg/{}-{}", name, version),
        edition: s("2021"),
        links: links.map(s),
        targets,
    }
}

fn normal_edge(name: &str, pkg: &Package) -> NodeDep {
    NodeDep {
        name: s(name),
        pkg: pkg.id.clone(),
        dep_kinds: vec![DepKindInfo { kind: DependencyKind::Normal, target: None }],
    }
}

fn scenario() -> BuckalContext {
    let libc_sys = registry_pkg(
        "libz-sys",
        "1.1.0",
        Some("z"),
        vec![
            target("libz_sys", TargetKind::Lib, "/reg/libz-sys-1.1.0/src/lib.rs"),
            target("build-script-build", TargetKind::CustomBuild, "/reg/libz-sys-1.1.0/build.rs"),
        ],
    );
    let libc = registry_pkg(
        "libc",
        "0.2.150",
        Some("c"),
        vec![
            target("libc", TargetKind::Lib, "/reg/libc-0.2.150/src/lib.rs"),
            target("build-script-build", TargetKind::CustomBuild, "/reg/libc-0.2.150/build.rs"),
        ],
    );
    let regex = registry_pkg(
        "regex",
        "1.10.0",
        None,
        vec![target("regex", TargetKind::Lib, "/reg/regex-1.10.0/src/lib.rs")],
    );
    let cc = registry_pkg(
        "cc",
        "1.0.0",
        None,
        vec![target("cc", TargetKind::Lib, "/reg/cc-1.0.0/src/lib.rs")],
    );
    let app = Package {
        id: s("path+file:///work/app#0.1.0"),
        name: s("app"),
        version: s("0.1.0"),
        source: None,
        manifest_dir: s("/work/app"),
        edition: s("2021"),
        links: None,
        targets: vec![target("app", TargetKind::Bin, "/work/app/src/main.rs")],
    };
    let app_node = Node {
        id: app.id.clone(),
        deps: vec![normal_edge("regex", &regex), normal_edge("libc", &libc)],
        features: vec![s("default")],
    };
    let libc_node = Node {
        id: libc.id.clone(),
        deps: vec![
            NodeDep {
                name: s("cc"),
                pkg: cc.id.clone(),
                dep_kinds: vec![DepKindInfo { kind: DependencyKind::Build, target: None }],
            },
            normal_edge("libz_sys", &libc_sys),
        ],
        features: vec![s("std"), s("default")],
    };
    let regex_node =
        Node { id: regex.id.clone(), deps: vec![], features: vec![s("std"), s("default")] };
    BuckalContext {
        root: app.id.clone(),
        nodes: vec![app_node, libc_node, regex_node],
        packages: vec![app, libc, regex, cc, libc_sys],
        checksums: vec![
            (s("libc-0.2.150"), s("aaaa")),
            (s("regex-1.10.0"), s("bbbb")),
            (s("cc-1.0.0"), s("cccc")),
        ],
        first_party: vec![],
        target: s("x86_64-unknown-linux-gnu"),
        cfgs: vec![Cfg::Name(s("unix")), Cfg::KeyPair(s("target_os"), s("linux"))],
        no_merge: false,
        separate: false,
    }
}

fn sorted(v: &[String]) -> Vec<String> {
    let mut v = v.to_vec();
    v.sort();
    v
}

#[test]
fn dep_node_with_build_script_is_wired() {
    let ctx = scenario();
    let rules = match buckify_dep_node(&ctx.nodes[1], &ctx) {
        Ok(r) => r,
        Err(_) => panic!("libc should compile"),
    };
    assert_eq!(rules.len(), 5);
    match &rules[0] {
        Rule::HttpArchive(a) => {
            assert_eq!(a.name, "libc-vendor");
            assert_eq!(a.urls, vec![s("https://static.crates.io/crates/libc/libc-0.2.150.crate")]);
            assert_eq!(a.sha256, "aaaa");
            assert_eq!(a._type, "tar.gz");
            assert_eq!(a.strip_prefix, "libc-0.2.150");
            assert_eq!(a.out, Some(s("vendor")));
        }
        _ => panic!("expected an archive first"),
    }
    match &rules[1] {
        Rule::CargoManifest(m) => {
            assert_eq!(m.name, "libc-manifest");
            assert_eq!(m.vendor, ":libc-vendor");
        }
        _ => panic!("expected the manifest shim second"),
    }
    match &rules[2] {
        Rule::RustLibrary(l) => {
            assert_eq!(l.name, "libc");
            assert_eq!(l.crate_name, "libc");
            assert_eq!(l.crate_root, "vendor/src/lib.rs");
            assert_eq!(l.env, vec![(s("OUT_DIR"), s("$(location :libc-build-script-run[out_dir])"))]);
            assert_eq!(
                sorted(&l.rustc_flags),
                vec![
                    s("@$(location :libc-build-script-run[rustc_flags])"),
                    s("@$(location :libc-manifest[env_flags])"),
                ]
            );
            assert_eq!(sorted(&l.features), vec![s("default"), s("std")]);
            assert_eq!(l.visibility, vec![s("PUBLIC")]);
            assert_eq!(l.deps, vec![s("//third-party/rust/crates/libz-sys/1.1.0:libz-sys")]);
            assert_eq!(l.proc_macro, None);
        }
        _ => panic!("expected the library third"),
    }
    match &rules[3] {
        Rule::RustBinary(b) => {
            assert_eq!(b.name, "libc-build-script-build");
            assert_eq!(b.crate_name, "build_script_build");
            assert_eq!(b.crate_root, "vendor/build.rs");
            assert_eq!(b.deps, vec![s("//third-party/rust/crates/cc/1.0.0:cc")]);
            assert!(b.visibility.is_empty());
            assert!(b.env.is_empty());
        }
        _ => panic!("expected the build script compile rule fourth"),
    }
    match &rules[4] {
        Rule::BuildscriptRun(r) => {
            assert_eq!(r.name, "libc-build-script-run");
            assert_eq!(r.package_name, "libc");
            assert_eq!(r.buildscript_rule, ":libc-build-script-build");
            assert_eq!(r.version, "0.2.150");
            assert_eq!(r.manifest_dir, ":libc-vendor");
            assert_eq!(
                sorted(&r.env_srcs),
                vec![
                    s("//third-party/rust/crates/libz-sys/1.1.0:libz-sys-build-script-run[metadata]"),
                    s(":libc-manifest[env_dict]"),
                ]
            );
        }
        _ => panic!("expected the run rule last"),
    }
}

#[test]
fn dep_node_without_build_script_has_three_rules() {
    let ctx = scenario();
    let rules = match buckify_dep_node(&ctx.nodes[2], &ctx) {
        Ok(r) => r,
        Err(_) => panic!("regex should compile"),
    };
    assert_eq!(rules.len(), 3);
    assert!(matches!(rules[0], Rule::HttpArchive(_)));
    assert!(matches!(rules[1], Rule::CargoManifest(_)));
    match &rules[2] {
        Rule::RustLibrary(l) => {
            assert!(l.env.is_empty());
            assert_eq!(l.rustc_flags, vec![s("@$(location :regex-manifest[env_flags])")]);
        }
        _ => panic!("expected a library"),
    }
}

#[test]
fn root_node_lists_binaries_and_their_deps() {
    let ctx = scenario();
    let rules = match buckify_root_node(&ctx.nodes[0], &ctx) {
        Ok(r) => r,
        Err(_) => panic!("root should compile"),
    };
    assert_eq!(rules.len(), 3);
    match &rules[0] {
        Rule::FileGroup(f) => {
            assert_eq!(f.name, "app-vendor");
            assert_eq!(f.srcs.included, vec![s("**/**")]);
            assert!(f.srcs.excluded.is_empty());
        }
        _ => panic!("expected a file group"),
    }
    match &rules[2] {
        Rule::RustBinary(b) => {
            assert_eq!(b.name, "app");
            assert_eq!(
                sorted(&b.deps),
                vec![
                    s("//third-party/rust/crates/libc/0.2.150:libc"),
                    s("//third-party/rust/crates/regex/1.10.0:regex"),
                ]
            );
        }
        _ => panic!("expected the binary"),
    }
}

#[test]
fn root_library_sharing_binary_name_is_prefixed() {
    let mut ctx = scenario();
    ctx.packages[0].targets.push(target("app", TargetKind::Lib, "/work/app/src/lib.rs"));
    let rules = match buckify_root_node(&ctx.nodes[0], &ctx) {
        Ok(r) => r,
        Err(_) => panic!("root should compile"),
    };
    assert_eq!(rules.len(), 4);
    match &rules[2] {
        Rule::RustBinary(b) => assert!(b.deps.contains(&s(":libapp"))),
        _ => panic!("expected the binary"),
    }
    match &rules[3] {
        Rule::RustLibrary(l) => {
            assert_eq!(l.name, "libapp");
            assert_eq!(l.crate_name, "app");
        }
        _ => panic!("expected the library"),
    }
}

#[test]
fn renamed_dependency_goes_to_named_deps() {
    let mut ctx = scenario();
    ctx.nodes[0].deps[0].name = s("re");
    let rules = match buckify_root_node(&ctx.nodes[0], &ctx) {
        Ok(r) => r,
        Err(_) => panic!("root should compile"),
    };
    match &rules[2] {
        Rule::RustBinary(b) => {
            assert_eq!(b.named_deps, vec![(s("re"), s("//third-party/rust/crates/regex/1.10.0:regex"))]);
            assert_eq!(b.deps, vec![s("//third-party/rust/crates/libc/0.2.150:libc")]);
        }
        _ => panic!("expected the binary"),
    }
}

#[test]
fn dashed_package_names_match_underscored_dep_names() {
    let ctx = scenario();
    let rules = match buckify_dep_node(&ctx.nodes[1], &ctx) {
        Ok(r) => r,
        Err(_) => panic!("libc should compile"),
    };
    match &rules[2] {
        Rule::RustLibrary(l) => {
            assert_eq!(l.deps, vec![s("//third-party/rust/crates/libz-sys/1.1.0:libz-sys")]);
            assert!(l.named_deps.is_empty());
        }
        _ => panic!("expected the library"),
    }
}

#[test]
fn crate_names_use_underscores() {
    let mut ctx = scenario();
    ctx.packages[2].targets[0].name = s("my-regex");
    let rules = match buckify_dep_node(&ctx.nodes[2], &ctx) {
        Ok(r) => r,
        Err(_) => panic!("regex should compile"),
    };
    match &rules[2] {
        Rule::RustLibrary(l) => assert_eq!(l.crate_name, "my_regex"),
        _ => panic!("expected the library"),
    }
}

#[test]
fn platform_gated_edges_follow_the_active_platform() {
    let mut ctx = scenario();
    ctx.nodes[0].deps[0].dep_kinds[0].target =
        Some(PlatformPredicate::Cfg(CfgExpr::Value(Cfg::Name(s("windows")))));
    ctx.nodes[0].deps[1].dep_kinds[0].target = Some(PlatformPredicate::Cfg(CfgExpr::All(
        Box::new(CfgExpr::Value(Cfg::Name(s("unix")))),
        Box::new(CfgExpr::Not(Box::new(CfgExpr::Value(Cfg::KeyPair(s("target_os"), s("macos")))))),
    )));
    let rules = match buckify_root_node(&ctx.nodes[0], &ctx) {
        Ok(r) => r,
        Err(_) => panic!("root should compile"),
    };
    match &rules[2] {
        Rule::RustBinary(b) => assert_eq!(b.deps, vec![s("//third-party/rust/crates/libc/0.2.150:libc")]),
        _ => panic!("expected the binary"),
    }
}

#[test]
fn dev_edges_never_contribute() {
    let mut ctx = scenario();
    ctx.nodes[0].deps[0].dep_kinds[0].kind = DependencyKind::Development;
    let rules = match buckify_root_node(&ctx.nodes[0], &ctx) {
        Ok(r) => r,
        Err(_) => panic!("root should compile"),
    };
    match &rules[2] {
        Rule::RustBinary(b) => assert_eq!(b.deps.len(), 1),
        _ => panic!("expected the binary"),
    }
}

#[test]
fn missing_checksum_is_an_error() {
    let mut ctx = scenario();
    ctx.checksums.remove(1);
    assert!(matches!(buckify_dep_node(&ctx.nodes[2], &ctx), Err(BuckalError::MissingChecksum(_))));
}

#[test]
fn missing_library_target_is_an_error() {
    let mut ctx = scenario();
    ctx.packages[2].targets[0].kind = vec![TargetKind::Bin];
    assert!(matches!(buckify_dep_node(&ctx.nodes[2], &ctx), Err(BuckalError::NoLibraryTarget(_))));
}

#[test]
fn links_dependency_without_build_script_is_an_error() {
    let mut ctx = scenario();
    ctx.packages[4].targets.pop();
    assert!(matches!(
        buckify_dep_node(&ctx.nodes[1], &ctx),
        Err(BuckalError::LinksWithoutBuildScript(_))
    ));
}

#[test]
fn unresolved_workspace_dependency_is_an_error() {
    let mut ctx = scenario();
    ctx.packages[2].source = None;
    assert!(matches!(
        buckify_root_node(&ctx.nodes[0], &ctx),
        Err(BuckalError::UnresolvedFirstParty(_))
    ));
    ctx.first_party.push((ctx.packages[2].id.clone(), s("//libs/regex:regex")));
    match buckify_root_node(&ctx.nodes[0], &ctx) {
        Ok(rules) => match &rules[2] {
            Rule::RustBinary(b) => assert!(b.deps.contains(&s("//libs/regex:regex"))),
            _ => panic!("expected the binary"),
        },
        Err(_) => panic!("resolved workspace dependency should compile"),
    }
}

#[test]
fn source_outside_package_is_an_error() {
    let mut ctx = scenario();
    ctx.packages[2].targets[0].src_path = s("/elsewhere/lib.rs");
    assert!(matches!(
        buckify_dep_node(&ctx.nodes[2], &ctx),
        Err(BuckalError::SourceOutsideManifest(_))
    ));
}

#[test]
fn unknown_node_is_an_error() {
    let ctx = scenario();
    let ghost = Node { id: s("nope"), deps: vec![], features: vec![] };
    assert!(matches!(buckify_dep_node(&ghost, &ctx), Err(BuckalError::MissingPackage(_))));
}

#[test]
fn build_name_drops_build_suffix() {
    assert_eq!(get_build_name(&s("build-script-build")), "build-script");
    assert_eq!(get_build_name(&s("custom")), "custom");
    assert_eq!(get_build_name(&s("-build")), "");
}

fn kinds(rules: &[Rule]) -> Vec<&'static str> {
    rules
        .iter()
        .map(|r| match r {
            Rule::Load(_) => "load",
            Rule::HttpArchive(_) => "http_archive",
            Rule::FileGroup(_) => "filegroup",
            Rule::CargoManifest(_) => "cargo_manifest",
            Rule::RustLibrary(_) => "rust_library",
            Rule::RustBinary(_) => "rust_binary",
            Rule::BuildscriptRun(_) => "buildscript_run",
        })
        .collect()
}

fn written(id: &String, change: ChangeType, ctx: &BuckalContext) -> (Vec<Rule>, String) {
    match plan_change(id, change, ctx) {
        Ok(Action::Write { rules, dir, merge }) => {
            assert!(merge);
            (rules, dir)
        }
        _ => panic!("expected a build file to write"),
    }
}

#[test]
fn three_runs_over_an_edited_graph() {
    // First run, empty cache: every package is new.
    let ctx = scenario();
    let first = BuckalCache::new(&ctx.nodes);
    let d1 = first.diff(&BuckalCache::new_empty());
    assert_eq!(d1.changes.len(), 3);
    assert!(d1.changes.iter().all(|(_, c)| *c == ChangeType::Added));
    let libc_id = ctx.nodes[1].id.clone();
    let regex_id = ctx.nodes[2].id.clone();
    let (libc_rules, libc_dir) = written(&libc_id, ChangeType::Added, &ctx);
    assert_eq!(
        kinds(&libc_rules),
        vec!["http_archive", "cargo_manifest", "rust_library", "rust_binary", "buildscript_run"]
    );
    assert_eq!(libc_dir, "third-party/rust/crates/libc/0.2.150");
    let (regex_rules, _) = written(&regex_id, ChangeType::Added, &ctx);
    assert_eq!(kinds(&regex_rules), vec!["http_archive", "cargo_manifest", "rust_library"]);
    assert!(matches!(plan_change(&ctx.root, ChangeType::Added, &ctx), Ok(Action::Skip)));

    // Second run, no change: nothing to do.
    let second = BuckalCache::new(&scenario().nodes);
    assert!(second.diff(&first).changes.is_empty());

    // Third run, regex gains a feature: only regex changes, and a hand-added
    // visibility entry of its previous file survives.
    let mut ctx3 = scenario();
    ctx3.nodes[2].features.push(s("unicode"));
    let third = BuckalCache::new(&ctx3.nodes);
    let d3 = third.diff(&second);
    assert_eq!(d3.changes.len(), 1);
    assert_eq!(d3.changes[0].0, regex_id);
    assert_eq!(d3.changes[0].1, ChangeType::Changed);
    let mut previous = regex_rules;
    if let Rule::RustLibrary(l) = &mut previous[2] {
        l.visibility.push(s("//team:tools"));
    }
    let (mut fresh, _) = written(&regex_id, ChangeType::Changed, &ctx3);
    patch_buck_rules(&previous, &mut fresh);
    match &fresh[2] {
        Rule::RustLibrary(l) => {
            assert_eq!(sorted(&l.visibility), vec![s("//team:tools"), s("PUBLIC")]);
            assert_eq!(sorted(&l.features), vec![s("default"), s("std"), s("unicode")]);
        }
        _ => panic!("expected the library"),
    }
}

#[test]
fn removed_ids_plan_a_deletion() {
    let ctx = scenario();
    let id = s("registry+https://github.com/rust-lang/crates.io-index#serde@1.0.200");
    match plan_change(&id, ChangeType::Removed, &ctx) {
        Ok(Action::Remove { name, version, dir }) => {
            assert_eq!(name, "serde");
            assert_eq!(version, "1.0.200");
            assert_eq!(dir, "third-party/rust/crates/serde/1.0.200");
        }
        _ => panic!("expected a removal"),
    }
    assert!(matches!(
        plan_change(&s("not an id"), ChangeType::Removed, &ctx),
        Err(PlanError::BadPackageId(_))
    ));
}

#[test]
fn separate_mode_skips_workspace_packages() {
    let mut ctx = scenario();
    ctx.separate = true;
    ctx.root = s("other");
    let id = ctx.nodes[0].id.clone();
    assert!(matches!(plan_change(&id, ChangeType::Changed, &ctx), Ok(Action::Skip)));
    ctx.separate = false;
    match plan_change(&id, ChangeType::Changed, &ctx) {
        Ok(Action::Write { dir, .. }) => assert_eq!(dir, "/work/app"),
        _ => panic!("expected the workspace package to be written"),
    }
}

#[test]
fn root_with_build_script_wires_every_target() {
    let mut ctx = scenario();
    ctx.packages[0].targets.push(target("app", TargetKind::Lib, "/work/app/src/lib.rs"));
    ctx.packages[0].targets.push(target("tool", TargetKind::Bin, "/work/app/src/bin/tool.rs"));
    ctx.packages[0].targets.push(target("build-script-build", TargetKind::CustomBuild, "/work/app/build.rs"));
    let rules = match buckify_root_node(&ctx.nodes[0], &ctx) {
        Ok(r) => r,
        Err(_) => panic!("root should compile"),
    };
    assert_eq!(
        kinds(&rules),
        vec![
            "filegroup",
            "cargo_manifest",
            "rust_binary",
            "rust_binary",
            "rust_library",
            "rust_binary",
            "buildscript_run"
        ]
    );
    let out_dir = (s("OUT_DIR"), s("$(location :app-build-script-run[out_dir])"));
    for rule in &rules[2..5] {
        match rule {
            Rule::RustBinary(b) => assert_eq!(b.env, vec![out_dir.clone()]),
            Rule::RustLibrary(l) => assert_eq!(l.env, vec![out_dir.clone()]),
            _ => panic!("expected a compile rule"),
        }
    }
    match &rules[6] {
        Rule::BuildscriptRun(r) => {
            assert_eq!(r.name, "app-build-script-run");
            assert_eq!(r.buildscript_rule, ":app-build-script-build");
        }
        _ => panic!("expected the run rule"),
    }
}

#[test]
fn empty_graph_node_without_edges_or_features() {
    let mut ctx = scenario();
    ctx.nodes[2].features.clear();
    let rules = match buckify_dep_node(&ctx.nodes[2], &ctx) {
        Ok(r) => r,
        Err(_) => panic!("regex should compile"),
    };
    match &rules[2] {
        Rule::RustLibrary(l) => {
            assert!(l.features.is_empty());
            assert!(l.deps.is_empty());
            assert!(l.named_deps.is_empty());
        }
        _ => panic!("expected the library"),
    }
}

#[test]
fn a_whole_diff_is_planned_in_order() {
    let ctx = scenario();
    let change = BuckalCache::new(&ctx.nodes).diff(&BuckalCache::new_empty());
    let actions = match change.plan(&ctx) {
        Ok(a) => a,
        Err(_) => panic!("the scenario compiles"),
    };
    assert_eq!(actions.len(), change.changes.len());
    let writes = actions.iter().filter(|a| matches!(a, Action::Write { .. })).count();
    let skips = actions.iter().filter(|a| matches!(a, Action::Skip)).count();
    assert_eq!((writes, skips), (2, 1));
    let mut broken = scenario();
    broken.checksums.clear();
    let change = BuckalCache::new(&broken.nodes).diff(&BuckalCache::new_empty());
    assert!(matches!(change.plan(&broken), Err(PlanError::Compile(BuckalError::MissingChecksum(_)))));
}

#[test]
fn dashes_become_underscores() {
    assert_eq!(dashes_to_underscores("a-b--c"), "a_b__c");
    assert_eq!(dashes_to_underscores(""), "");
    assert_eq!(dashes_to_underscores("plain"), "plain");
}
