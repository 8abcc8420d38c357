use buckal::config::{
    build_version, check_buck2_installed, default_buck2_binary, ensure_buck2_installed,
    user_agent, Config, InstallError, RepoConfig,
};
use buckal::pkgid::parse_package_id;
use buckal::platform::{lookup_platforms, Platform, LINUX, MACOS, WINDOWS};
use buckal::registry::{
    manifest_file, manifest_request, paths_to_upload, session_url, start_request, started_link,
    PushError, SessionManifestData, SessionManifestResponse, SessionManifestUploadFile,
    SessionStartData, SessionStartResponse,
};
use buckal::render::{default_loads, gen_buck_content};

fn s(x: &str) -> String {
    x.to_string()
}

#[test]
fn package_ids_split_into_name_and_version() {
    assert_eq!(
        parse_package_id("registry+https://github.com/rust-lang/crates.io-index#regex@1.10.0"),
        Some((s("regex"), s("1.10.0")))
    );
    assert_eq!(
        parse_package_id("git+https://github.com/a/b?rev=1#dep@0.1.0+extra"),
        Some((s("dep"), s("0.1.0")))
    );
    assert_eq!(parse_package_id("path+file:///x#0.1.0"), None);
    assert_eq!(parse_package_id("registry+url#name@"), None);
    assert_eq!(parse_package_id("a#b+c#n@v"), None);
    assert_eq!(parse_package_id("a+b#n@v#"), None);
}

#[test]
fn platforms_of_known_packages() {
    assert_eq!(lookup_platforms("winreg"), Some(Platform { bits: WINDOWS }));
    assert_eq!(lookup_platforms("system-configuration"), Some(Platform { bits: MACOS }));
    assert_eq!(lookup_platforms("regex"), None);
    let mut labels = Platform { bits: WINDOWS | LINUX }.to_buck();
    labels.sort();
    assert_eq!(labels, vec![s("prelude//os:linux"), s("prelude//os:windows")]);
    assert!(Platform { bits: 0 }.to_buck().is_empty());
}

#[test]
fn version_strings() {
    assert_eq!(build_version("0.1.0", Some("abc123"), Some("2025-01-01")), "0.1.0 (abc123 2025-01-01)");
    assert_eq!(build_version("0.1.0", None, None), "0.1.0 (unknown unknown)");
    assert_eq!(user_agent("0.1.0"), "buckal/0.1.0");
}

#[test]
fn configuration_defaults() {
    assert_eq!(default_buck2_binary(), "buck2");
    assert_eq!(Config::default().buck2_binary, "buck2");
    let r = RepoConfig::default();
    assert!(r.ignore_tests && !r.align_cells && !r.inherit_workspace_deps);
    assert!(r.patch_fields.is_empty());
    assert_eq!(RepoConfig::repo_config_path("/repo"), "/repo/buckal.toml");
}

#[test]
fn buck2_presence() {
    assert!(check_buck2_installed(Some(true)));
    assert!(!check_buck2_installed(Some(false)));
    assert!(!check_buck2_installed(None));
    assert!(ensure_buck2_installed(true, None).is_ok());
    assert!(ensure_buck2_installed(false, Some(Ok(true))).is_ok());
    assert!(matches!(ensure_buck2_installed(false, Some(Ok(false))), Err(InstallError::NotInstalled)));
    assert!(matches!(ensure_buck2_installed(false, None), Err(InstallError::NotInstalled)));
    assert!(matches!(
        ensure_buck2_installed(false, Some(Err(s("no terminal")))),
        Err(InstallError::Prompt(m)) if m == "no terminal"
    ));
}

#[test]
fn build_file_framing() {
    let text = gen_buck_content(&vec![s("load(a)\n"), s("load(b)\n")], &vec![s("r1()"), s("r2()")]);
    assert_eq!(text, "# @generated by `cargo buckal`\n\nload(a)\nload(b)\n\nr1()\nr2()");
    assert_eq!(gen_buck_content(&vec![], &vec![]), "# @generated by `cargo buckal`\n\n\n");
    let loads = default_loads();
    assert_eq!(loads[0].bzl, "@buckal//:cargo_manifest.bzl");
    assert_eq!(loads[1].items.len(), 3);
}

fn manifest_response(ok: bool, paths: &[&str]) -> SessionManifestResponse {
    SessionManifestResponse {
        data: SessionManifestData {
            files_to_upload: paths
                .iter()
                .map(|p| SessionManifestUploadFile { path: s(p), reason: s("new") })
                .collect(),
            files_unchanged: 0,
            total_files: paths.len() as i64,
            total_size: 0,
            upload_size: 0,
        },
        err_message: s("denied"),
        req_result: ok,
    }
}

#[test]
fn upload_session_decisions() {
    assert_eq!(start_request().path, "/");
    let started = SessionStartResponse {
        data: SessionStartData {
            cl_link: s("CL42"),
            expires_at: s(""),
            max_concurrent_uploads: 1,
            max_file_size: 1,
            max_files: 1,
        },
        err_message: s(""),
        req_result: true,
    };
    assert!(matches!(started_link(&started), Ok(l) if l == "CL42"));
    let f = manifest_file(s("third-party/BUCK"), 10, "ab01");
    assert_eq!(f.hash, "sha1:ab01");
    let req = manifest_request(None, vec![f]);
    assert_eq!(req.commit_message, Some(s("Update third-party BUCK files")));
    assert_eq!(req.files.len(), 1);
    assert_eq!(session_url("https://r", "CL42", "manifest"), "https://r/api/v1/buck/session/CL42/manifest");
    match paths_to_upload(&manifest_response(true, &["a/BUCK", "b/BUCK"])) {
        Ok(p) => assert_eq!(p, vec![s("a/BUCK"), s("b/BUCK")]),
        Err(_) => panic!("safe paths"),
    }
    assert!(matches!(
        paths_to_upload(&manifest_response(true, &["a/BUCK", "../../etc/passwd"])),
        Err(PushError::UnsafePath(p)) if p == "../../etc/passwd"
    ));
    assert!(matches!(
        paths_to_upload(&manifest_response(false, &[])),
        Err(PushError::Refused(m)) if m == "denied"
    ));
}
