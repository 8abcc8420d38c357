//! User and repository configuration, and the tool's version strings.
use vstd::prelude::*;

verus! {

/// Per-user settings.
pub struct Config {
    pub buck2_binary: String,
}

/// Per-repository settings.
pub struct RepoConfig {
    pub inherit_workspace_deps: bool,
    pub align_cells: bool,
    pub ignore_tests: bool,
    pub patch_fields: Vec<String>,
}

/// The Buck2 executable used when none is configured.
pub fn default_buck2_binary() -> (r: String)
    ensures
        r@ == "buck2"@,
{
    String::from_str("buck2")
}

impl Default for Config {
    fn default() -> (r: Self)
        ensures
            r.buck2_binary@ == "buck2"@,
    {
        Config { buck2_binary: default_buck2_binary() }
    }
}

impl Default for RepoConfig {
    fn default() -> (r: Self)
        ensures
            !r.inherit_workspace_deps,
            !r.align_cells,
            r.ignore_tests,
            r.patch_fields@.len() == 0,
    {
        RepoConfig {
            inherit_workspace_deps: false,
            align_cells: false,
            ignore_tests: true,
            patch_fields: Vec::new(),
        }
    }
}

impl RepoConfig {
    /// The repository settings file below the Buck2 root `buck2_root`.
    pub fn repo_config_path(buck2_root: &str) -> (r: String)
        ensures
            r@ == buck2_root@ + "/buckal.toml"@,
    {
        let mut s = String::from_str(buck2_root);
        s.append("/buckal.toml");
        s
    }
}

/// The version line: the package version, then the commit hash and date it
/// was built from, `unknown` where those are not known.
pub fn build_version(pkg_version: &str, git_hash: Option<&str>, commit_date: Option<&str>) -> (r: String)
    ensures
        r@ == pkg_version@ + " ("@ + (match git_hash {
            Some(h) => h@,
            None => "unknown"@,
        }) + " "@ + (match commit_date {
            Some(d) => d@,
            None => "unknown"@,
        }) + ")"@,
{
    let mut s = String::from_str(pkg_version);
    s.append(" (");
    match git_hash {
        Some(h) => s.append(h),
        None => s.append("unknown"),
    }
    s.append(" ");
    match commit_date {
        Some(d) => s.append(d),
        None => s.append("unknown"),
    }
    s.append(")");
    s
}

/// The user agent sent to a registry.
pub fn user_agent(pkg_version: &str) -> (r: String)
    ensures
        r@ == "buckal/"@ + pkg_version@,
{
    let mut s = String::from_str("buckal/");
    s.append(pkg_version);
    s
}

/// Whether Buck2 is usable: its `--help` ran (`Some`) and succeeded.
pub fn check_buck2_installed(help_status: Option<bool>) -> (r: bool)
    ensures
        r == (help_status == Some(true)),
{
    match help_status {
        Some(ok) => ok,
        None => false,
    }
}

/// Why Buck2 cannot be used.
pub enum InstallError {
    /// Buck2 was not found and its installation was declined or did not
    /// make it available.
    NotInstalled,
    /// Asking whether to install Buck2 failed, with this message.
    Prompt(String),
}

/// Whether the run may go on. `found` says whether Buck2 answered; when it
/// did not, `answer` is the outcome of offering to install it: whether Buck2
/// is available afterwards, or why asking failed.
pub fn ensure_buck2_installed(found: bool, answer: Option<Result<bool, String>>) -> (r: Result<(), InstallError>)
    ensures
        found ==> r is Ok,
        !found ==> match answer {
            Some(Ok(true)) => r is Ok,
            Some(Ok(false)) | None => r matches Err(InstallError::NotInstalled),
            Some(Err(e)) => r matches Err(InstallError::Prompt(m)) && m@ == e@,
        },
{
    if found {
        return Ok(());
    }
    match answer {
        Some(Ok(true)) => Ok(()),
        Some(Ok(false)) | None => Err(InstallError::NotInstalled),
        Some(Err(e)) => Err(InstallError::Prompt(e)),
    }
}

} // verus!
