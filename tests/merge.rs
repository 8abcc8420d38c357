use buckal::evaluate::{rules_from_calls, ArgValue, Call, EvalError, GlobCall};
use buckal::rules::{patch_buck_rules, BuildscriptRun, FileGroup, Glob, Rule, RustBinary, RustLibrary};

fn s(x: &str) -> String {
    x.to_string()
}

fn lib(visibility: &[&str], env: &[(&str, &str)]) -> RustLibrary {
    RustLibrary {
        name: s("regex"),
        srcs: vec![s(":regex-vendor")],
        crate_name: s("regex"),
        crate_root: s("vendor/src/lib.rs"),
        edition: s("2021"),
        env: env.iter().map(|(k, v)| (s(k), s(v))).collect(),
        features: vec![s("std")],
        rustc_flags: vec![],
        proc_macro: None,
        named_deps: vec![],
        visibility: visibility.iter().map(|v| s(v)).collect(),
        deps: vec![],
    }
}

#[test]
fn patch_keeps_hand_added_entries() {
    let mut fresh = lib(&["PUBLIC"], &[("OUT_DIR", "new")]);
    let mut existing = lib(&["//team:all"], &[("OUT_DIR", "old"), ("EXTRA", "1")]);
    existing.features = vec![s("serde")];
    fresh.patch_from(&existing);
    let mut vis = fresh.visibility.clone();
    vis.sort();
    assert_eq!(vis, vec![s("//team:all"), s("PUBLIC")]);
    let mut env = fresh.env.clone();
    env.sort();
    assert_eq!(env, vec![(s("EXTRA"), s("1")), (s("OUT_DIR"), s("new"))]);
    let mut features = fresh.features.clone();
    features.sort();
    assert_eq!(features, vec![s("serde"), s("std")]);
    assert_eq!(fresh.name, "regex");
}

#[test]
fn patch_rules_by_kind() {
    let existing = vec![
        Rule::RustLibrary(lib(&["//a:b"], &[])),
        Rule::BuildscriptRun(BuildscriptRun {
            name: s("old-run"),
            package_name: s("x"),
            buildscript_rule: s(":x"),
            env: vec![(s("K"), s("V"))],
            env_srcs: vec![],
            features: vec![],
            version: s("1"),
            manifest_dir: s(":x-vendor"),
            visibility: vec![],
        }),
    ];
    let mut fresh = vec![
        Rule::RustLibrary(lib(&["PUBLIC"], &[])),
        Rule::RustBinary(RustBinary {
            name: s("b"),
            srcs: vec![],
            crate_name: s("b"),
            crate_root: s("vendor/main.rs"),
            edition: s("2021"),
            env: vec![],
            features: vec![],
            rustc_flags: vec![],
            named_deps: vec![],
            visibility: vec![],
            deps: vec![],
        }),
        Rule::FileGroup(FileGroup {
            name: s("g"),
            srcs: Glob { included: vec![s("**/**")], excluded: vec![] },
            out: None,
        }),
    ];
    patch_buck_rules(&existing, &mut fresh);
    assert_eq!(fresh.len(), 3);
    match &fresh[0] {
        Rule::RustLibrary(l) => assert_eq!(l.visibility.len(), 2),
        _ => panic!("kind changed"),
    }
    match &fresh[1] {
        Rule::RustBinary(b) => assert!(b.visibility.is_empty()),
        _ => panic!("kind changed"),
    }
}

#[test]
fn calls_become_rules() {
    let calls = vec![
        Call {
            func: s("rust_library"),
            kwargs: vec![
                (s("name"), ArgValue::Str(s("regex"))),
                (s("visibility"), ArgValue::List(vec![s("PUBLIC"), s("//x:y"), s("PUBLIC")])),
                (s("env"), ArgValue::Dict(vec![(s("A"), s("1"))])),
                (s("proc_macro"), ArgValue::Bool(true)),
                (s("edition"), ArgValue::Other),
            ],
        },
        Call {
            func: s("filegroup"),
            kwargs: vec![
                (s("name"), ArgValue::Str(s("g"))),
                (
                    s("srcs"),
                    ArgValue::Glob(GlobCall {
                        positional: vec![],
                        included: Some(vec![s("**")]),
                        excluded: Some(vec![s("BUCK")]),
                    }),
                ),
            ],
        },
    ];
    let rules = match rules_from_calls(&calls) {
        Ok(r) => r,
        Err(_) => panic!("calls are well formed"),
    };
    match &rules[0] {
        Rule::RustLibrary(l) => {
            assert_eq!(l.name, "regex");
            assert_eq!(l.visibility.len(), 2);
            assert_eq!(l.env, vec![(s("A"), s("1"))]);
            assert_eq!(l.proc_macro, Some(true));
            assert_eq!(l.edition, "");
        }
        _ => panic!("expected a library"),
    }
    match &rules[1] {
        Rule::FileGroup(g) => {
            assert_eq!(g.srcs.included, vec![s("**")]);
            assert_eq!(g.srcs.excluded, vec![s("BUCK")]);
        }
        _ => panic!("expected a file group"),
    }
}

#[test]
fn unknown_constructor_fails_the_file() {
    let calls = vec![Call { func: s("genrule"), kwargs: vec![] }];
    assert!(matches!(rules_from_calls(&calls), Err(EvalError::UnknownRule(_))));
}

#[test]
fn glob_with_two_positionals_fails() {
    let calls = vec![Call {
        func: s("filegroup"),
        kwargs: vec![(
            s("srcs"),
            ArgValue::Glob(GlobCall {
                positional: vec![Some(vec![s("a")]), Some(vec![s("b")])],
                included: None,
                excluded: None,
            }),
        )],
    }];
    assert!(matches!(rules_from_calls(&calls), Err(EvalError::GlobArity)));
    let not_glob = vec![Call { func: s("filegroup"), kwargs: vec![(s("srcs"), ArgValue::Str(s("x")))] }];
    assert!(matches!(rules_from_calls(&not_glob), Err(EvalError::NotAGlob)));
}

#[test]
fn patch_with_nothing_existing_changes_nothing() {
    let mut fresh = vec![Rule::RustLibrary(lib(&["PUBLIC"], &[("A", "1")]))];
    patch_buck_rules(&vec![], &mut fresh);
    match &fresh[0] {
        Rule::RustLibrary(l) => {
            assert_eq!(l.visibility, vec![s("PUBLIC")]);
            assert_eq!(l.env, vec![(s("A"), s("1"))]);
        }
        _ => panic!("kind changed"),
    }
}

#[test]
fn patch_uses_the_last_record_of_a_kind() {
    let existing = vec![
        Rule::RustLibrary(lib(&["//first:x"], &[])),
        Rule::RustLibrary(lib(&["//second:x"], &[])),
    ];
    let mut fresh = vec![Rule::RustLibrary(lib(&["PUBLIC"], &[]))];
    patch_buck_rules(&existing, &mut fresh);
    match &fresh[0] {
        Rule::RustLibrary(l) => {
            let mut v = l.visibility.clone();
            v.sort();
            assert_eq!(v, vec![s("//second:x"), s("PUBLIC")]);
        }
        _ => panic!("kind changed"),
    }
}
