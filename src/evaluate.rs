//! Recovery of rule records from an existing build file. The file is run as
//! a restricted program that only records, for each recognized rule
//! constructor it calls, the keyword arguments of the call; this module turns
//! those recorded calls back into rule records.
use vstd::prelude::*;
use crate::rules::{
    BuildscriptRun, CargoManifest, FileGroup, Glob, HttpArchive, Rule, RustBinary, RustLibrary,
};
use crate::strset::{distinct, distinct_keys, map_insert, pairs_map, strs, union_into};

verus! {

/// A call of the `glob` helper.
pub struct GlobCall {
    /// The positional arguments, each `Some` when it is a list of strings.
    pub positional: Vec<Option<Vec<String>>>,
    pub included: Option<Vec<String>>,
    pub excluded: Option<Vec<String>>,
}

/// The value of a keyword argument.
pub enum ArgValue {
    Str(String),
    List(Vec<String>),
    Dict(Vec<(String, String)>),
    Bool(bool),
    Glob(GlobCall),
    /// `None`, or anything else the records cannot hold.
    Other,
}

/// A recorded call: the constructor's name and its keyword arguments.
pub struct Call {
    pub func: String,
    pub kwargs: Vec<(String, ArgValue)>,
}

/// Why recorded calls cannot be turned into rules.
pub enum EvalError {
    /// A constructor that the records do not know.
    UnknownRule(String),
    /// `glob` was given more than one positional argument.
    GlobArity,
    /// The `srcs` of a file group is not a `glob` call.
    NotAGlob,
}

/// The value of keyword `key`: the first one given.
pub open spec fn lookup_arg(kw: Seq<(String, ArgValue)>, key: Seq<char>) -> Option<ArgValue>
    decreases kw.len(),
{
    if kw.len() == 0 {
        None
    } else if kw[0].0@ == key {
        Some(kw[0].1)
    } else {
        lookup_arg(kw.drop_first(), key)
    }
}

/// The string given as `key`; empty when it is missing or not a string.
pub open spec fn str_arg(kw: Seq<(String, ArgValue)>, key: Seq<char>) -> Seq<char> {
    match lookup_arg(kw, key) {
        Some(ArgValue::Str(s)) => s@,
        _ => Seq::empty(),
    }
}

/// The strings listed as `key`; none when it is missing or not a list.
pub open spec fn set_arg(kw: Seq<(String, ArgValue)>, key: Seq<char>) -> Set<Seq<char>> {
    match lookup_arg(kw, key) {
        Some(ArgValue::List(v)) => strs(v@),
        _ => Set::empty(),
    }
}

/// The map of a dictionary's entries, a later entry replacing an earlier one.
pub open spec fn dict_map(v: Seq<(String, String)>) -> Map<Seq<char>, Seq<char>>
    decreases v.len(),
{
    if v.len() == 0 {
        Map::empty()
    } else {
        dict_map(v.drop_last()).insert(v.last().0@, v.last().1@)
    }
}

/// The map given as `key`; empty when it is missing or not a dictionary.
pub open spec fn map_arg(kw: Seq<(String, ArgValue)>, key: Seq<char>) -> Map<Seq<char>, Seq<char>> {
    match lookup_arg(kw, key) {
        Some(ArgValue::Dict(v)) => dict_map(v@),
        _ => Map::empty(),
    }
}

/// The flag given as `key`, if it is a boolean.
pub open spec fn bool_arg(kw: Seq<(String, ArgValue)>, key: Seq<char>) -> Option<bool> {
    match lookup_arg(kw, key) {
        Some(ArgValue::Bool(b)) => Some(b),
        _ => None,
    }
}

/// The string given as `key`, if it is one.
pub open spec fn opt_str_arg(kw: Seq<(String, ArgValue)>, key: Seq<char>) -> Option<Seq<char>> {
    match lookup_arg(kw, key) {
        Some(ArgValue::Str(s)) => Some(s@),
        _ => None,
    }
}

/// Finds the value of keyword `key`.
pub fn find_arg<'a>(kw: &'a Vec<(String, ArgValue)>, key: &str) -> (r: Option<&'a ArgValue>)
    ensures
        r matches Some(v) ==> lookup_arg(kw@, key@) == Some(*v),
        r is None ==> lookup_arg(kw@, key@) is None,
{
    let k = String::from_str(key);
    let mut i: usize = 0;
    assert(kw@.subrange(0, kw@.len() as int) =~= kw@);
    while i < kw.len()
        invariant
            0 <= i <= kw@.len(),
            k@ == key@,
            lookup_arg(kw@, key@) == lookup_arg(kw@.subrange(i as int, kw@.len() as int), key@),
        decreases kw@.len() - i,
    {
        let ghost rest = kw@.subrange(i as int, kw@.len() as int);
        assert(rest[0] == kw@[i as int]);
        if kw[i].0 == k {
            return Some(&kw[i].1);
        }
        assert(rest.drop_first() =~= kw@.subrange(i + 1, kw@.len() as int));
        i = i + 1;
    }
    None
}

fn get_str(kw: &Vec<(String, ArgValue)>, key: &str) -> (r: String)
    ensures
        r@ == str_arg(kw@, key@),
{
    match find_arg(kw, key) {
        Some(ArgValue::Str(s)) => s.clone(),
        _ => String::new(),
    }
}

fn to_set(v: &Vec<String>) -> (r: Vec<String>)
    ensures
        distinct(r@),
        strs(r@) == strs(v@),
{
    let mut r: Vec<String> = Vec::new();
    assert(strs(r@) =~= Set::<Seq<char>>::empty());
    union_into(&mut r, v);
    assert(strs(r@) =~= strs(v@));
    r
}

fn get_set(kw: &Vec<(String, ArgValue)>, key: &str) -> (r: Vec<String>)
    ensures
        distinct(r@),
        strs(r@) == set_arg(kw@, key@),
{
    match find_arg(kw, key) {
        Some(ArgValue::List(v)) => to_set(v),
        _ => {
            let r: Vec<String> = Vec::new();
            assert(strs(r@) =~= Set::<Seq<char>>::empty());
            r
        },
    }
}

fn to_map(v: &Vec<(String, String)>) -> (r: Vec<(String, String)>)
    ensures
        distinct_keys(r@),
        pairs_map(r@) == dict_map(v@),
{
    let mut r: Vec<(String, String)> = Vec::new();
    assert(pairs_map(r@) =~= Map::<Seq<char>, Seq<char>>::empty());
    let mut i: usize = 0;
    while i < v.len()
        invariant
            0 <= i <= v@.len(),
            distinct_keys(r@),
            pairs_map(r@) == dict_map(v@.subrange(0, i as int)),
        decreases v@.len() - i,
    {
        let ghost post = v@.subrange(0, i + 1);
        assert(post.drop_last() =~= v@.subrange(0, i as int));
        map_insert(&mut r, v[i].0.clone(), v[i].1.clone());
        i = i + 1;
    }
    assert(v@.subrange(0, v@.len() as int) =~= v@);
    r
}

fn get_map(kw: &Vec<(String, ArgValue)>, key: &str) -> (r: Vec<(String, String)>)
    ensures
        distinct_keys(r@),
        pairs_map(r@) == map_arg(kw@, key@),
{
    match find_arg(kw, key) {
        Some(ArgValue::Dict(v)) => to_map(v),
        _ => {
            let r: Vec<(String, String)> = Vec::new();
            assert(pairs_map(r@) =~= Map::<Seq<char>, Seq<char>>::empty());
            r
        },
    }
}

fn get_bool(kw: &Vec<(String, ArgValue)>, key: &str) -> (r: Option<bool>)
    ensures
        r == bool_arg(kw@, key@),
{
    match find_arg(kw, key) {
        Some(ArgValue::Bool(b)) => Some(*b),
        _ => None,
    }
}

fn get_opt_str(kw: &Vec<(String, ArgValue)>, key: &str) -> (r: Option<String>)
    ensures
        r matches Some(s) ==> opt_str_arg(kw@, key@) == Some(s@),
        r is None ==> opt_str_arg(kw@, key@) is None,
{
    match find_arg(kw, key) {
        Some(ArgValue::Str(s)) => Some(s.clone()),
        _ => None,
    }
}

/// The strings of an optional list; none when it is absent.
pub open spec fn opt_list(v: Option<Vec<String>>) -> Set<Seq<char>> {
    match v {
        Some(l) => strs(l@),
        None => Set::empty(),
    }
}

fn opt_list_set(v: &Option<Vec<String>>) -> (r: Vec<String>)
    ensures
        distinct(r@),
        strs(r@) == opt_list(*v),
{
    match v {
        Some(l) => to_set(l),
        None => {
            let r: Vec<String> = Vec::new();
            assert(strs(r@) =~= Set::<Seq<char>>::empty());
            r
        },
    }
}

/// `x` holds the patterns of the `glob` call `g`: its one positional list,
/// or else its `include` and `exclude` lists.
pub open spec fn glob_of_call(g: GlobCall, x: Glob) -> bool {
    &&& x.wf()
    &&& if g.positional@.len() == 1 {
        strs(x.included@) == opt_list(g.positional@[0]) && strs(x.excluded@) == Set::<Seq<char>>::empty()
    } else {
        strs(x.included@) == opt_list(g.included) && strs(x.excluded@) == opt_list(g.excluded)
    }
}

/// `f` is the file group that keyword arguments `kw` describe.
pub open spec fn filegroup_described_by(f: FileGroup, kw: Seq<(String, ArgValue)>) -> bool {
    &&& f.wf()
    &&& f.name@ == str_arg(kw, "name"@)
    &&& (lookup_arg(kw, "srcs"@) matches Some(ArgValue::Glob(g)) && glob_of_call(g, f.srcs))
    &&& (match f.out {
        Some(o) => opt_str_arg(kw, "out"@) == Some(o@),
        None => opt_str_arg(kw, "out"@) is None,
    })
}

impl Glob {
    /// The patterns of a `glob` call: its one positional list, or else its
    /// `include` and `exclude` lists. More than one positional argument is an
    /// error.
    pub fn from_call(g: &GlobCall) -> (r: Result<Glob, EvalError>)
        ensures
            r is Err <==> g.positional@.len() > 1,
            r matches Ok(x) ==> glob_of_call(*g, x),
    {
        if g.positional.len() > 1 {
            Err(EvalError::GlobArity)
        } else if g.positional.len() == 1 {
            let excluded: Vec<String> = Vec::new();
            assert(strs(excluded@) =~= Set::<Seq<char>>::empty());
            Ok(Glob { included: opt_list_set(&g.positional[0]), excluded })
        } else {
            Ok(Glob { included: opt_list_set(&g.included), excluded: opt_list_set(&g.excluded) })
        }
    }
}

impl RustLibrary {
    /// The library that keyword arguments `kw` describe.
    pub open spec fn described_by(r: RustLibrary, kw: Seq<(String, ArgValue)>) -> bool {
        &&& r.wf()
        &&& r.name@ == str_arg(kw, "name"@)
        &&& strs(r.srcs@) == set_arg(kw, "srcs"@)
        &&& r.crate_name@ == str_arg(kw, "crate"@)
        &&& r.crate_root@ == str_arg(kw, "crate_root"@)
        &&& r.edition@ == str_arg(kw, "edition"@)
        &&& pairs_map(r.env@) == map_arg(kw, "env"@)
        &&& strs(r.features@) == set_arg(kw, "features"@)
        &&& strs(r.rustc_flags@) == set_arg(kw, "rustc_flags"@)
        &&& r.proc_macro == bool_arg(kw, "proc_macro"@)
        &&& pairs_map(r.named_deps@) == map_arg(kw, "named_deps"@)
        &&& strs(r.visibility@) == set_arg(kw, "visibility"@)
        &&& strs(r.deps@) == set_arg(kw, "deps"@)
    }

    /// The library that keyword arguments `kw` describe; a missing or
    /// ill-typed argument leaves its field empty.
    pub fn from_kwargs(kw: &Vec<(String, ArgValue)>) -> (r: RustLibrary)
        ensures
            RustLibrary::described_by(r, kw@),
    {
        RustLibrary {
            name: get_str(kw, "name"),
            srcs: get_set(kw, "srcs"),
            crate_name: get_str(kw, "crate"),
            crate_root: get_str(kw, "crate_root"),
            edition: get_str(kw, "edition"),
            env: get_map(kw, "env"),
            features: get_set(kw, "features"),
            rustc_flags: get_set(kw, "rustc_flags"),
            proc_macro: get_bool(kw, "proc_macro"),
            named_deps: get_map(kw, "named_deps"),
            visibility: get_set(kw, "visibility"),
            deps: get_set(kw, "deps"),
        }
    }
}

impl RustBinary {
    /// The binary that keyword arguments `kw` describe.
    pub open spec fn described_by(r: RustBinary, kw: Seq<(String, ArgValue)>) -> bool {
        &&& r.wf()
        &&& r.name@ == str_arg(kw, "name"@)
        &&& strs(r.srcs@) == set_arg(kw, "srcs"@)
        &&& r.crate_name@ == str_arg(kw, "crate"@)
        &&& r.crate_root@ == str_arg(kw, "crate_root"@)
        &&& r.edition@ == str_arg(kw, "edition"@)
        &&& pairs_map(r.env@) == map_arg(kw, "env"@)
        &&& strs(r.features@) == set_arg(kw, "features"@)
        &&& strs(r.rustc_flags@) == set_arg(kw, "rustc_flags"@)
        &&& pairs_map(r.named_deps@) == map_arg(kw, "named_deps"@)
        &&& strs(r.visibility@) == set_arg(kw, "visibility"@)
        &&& strs(r.deps@) == set_arg(kw, "deps"@)
    }

    /// The binary that keyword arguments `kw` describe; a missing or
    /// ill-typed argument leaves its field empty.
    pub fn from_kwargs(kw: &Vec<(String, ArgValue)>) -> (r: RustBinary)
        ensures
            RustBinary::described_by(r, kw@),
    {
        RustBinary {
            name: get_str(kw, "name"),
            srcs: get_set(kw, "srcs"),
            crate_name: get_str(kw, "crate"),
            crate_root: get_str(kw, "crate_root"),
            edition: get_str(kw, "edition"),
            env: get_map(kw, "env"),
            features: get_set(kw, "features"),
            rustc_flags: get_set(kw, "rustc_flags"),
            named_deps: get_map(kw, "named_deps"),
            visibility: get_set(kw, "visibility"),
            deps: get_set(kw, "deps"),
        }
    }
}

impl BuildscriptRun {
    /// The run rule that keyword arguments `kw` describe.
    pub open spec fn described_by(r: BuildscriptRun, kw: Seq<(String, ArgValue)>) -> bool {
        &&& r.wf()
        &&& r.name@ == str_arg(kw, "name"@)
        &&& r.package_name@ == str_arg(kw, "package_name"@)
        &&& r.buildscript_rule@ == str_arg(kw, "buildscript_rule"@)
        &&& pairs_map(r.env@) == map_arg(kw, "env"@)
        &&& strs(r.env_srcs@) == set_arg(kw, "env_srcs"@)
        &&& strs(r.features@) == set_arg(kw, "features"@)
        &&& r.version@ == str_arg(kw, "version"@)
        &&& r.manifest_dir@ == str_arg(kw, "manifest_dir"@)
        &&& strs(r.visibility@) == set_arg(kw, "visibility"@)
    }

    /// The run rule that keyword arguments `kw` describe; a missing or
    /// ill-typed argument leaves its field empty.
    pub fn from_kwargs(kw: &Vec<(String, ArgValue)>) -> (r: BuildscriptRun)
        ensures
            BuildscriptRun::described_by(r, kw@),
    {
        BuildscriptRun {
            name: get_str(kw, "name"),
            package_name: get_str(kw, "package_name"),
            buildscript_rule: get_str(kw, "buildscript_rule"),
            env: get_map(kw, "env"),
            env_srcs: get_set(kw, "env_srcs"),
            features: get_set(kw, "features"),
            version: get_str(kw, "version"),
            manifest_dir: get_str(kw, "manifest_dir"),
            visibility: get_set(kw, "visibility"),
        }
    }
}

impl HttpArchive {
    /// The archive rule that keyword arguments `kw` describe.
    pub open spec fn described_by(r: HttpArchive, kw: Seq<(String, ArgValue)>) -> bool {
        &&& r.wf()
        &&& r.name@ == str_arg(kw, "name"@)
        &&& strs(r.urls@) == set_arg(kw, "urls"@)
        &&& r.sha256@ == str_arg(kw, "sha256"@)
        &&& r._type@ == str_arg(kw, "type"@)
        &&& r.strip_prefix@ == str_arg(kw, "strip_prefix"@)
        &&& (match r.out {
            Some(o) => opt_str_arg(kw, "out"@) == Some(o@),
            None => opt_str_arg(kw, "out"@) is None,
        })
    }

    /// The archive rule that keyword arguments `kw` describe; a missing or
    /// ill-typed argument leaves its field empty.
    pub fn from_kwargs(kw: &Vec<(String, ArgValue)>) -> (r: HttpArchive)
        ensures
            HttpArchive::described_by(r, kw@),
    {
        HttpArchive {
            name: get_str(kw, "name"),
            urls: get_set(kw, "urls"),
            sha256: get_str(kw, "sha256"),
            _type: get_str(kw, "type"),
            strip_prefix: get_str(kw, "strip_prefix"),
            out: get_opt_str(kw, "out"),
        }
    }
}

impl CargoManifest {
    /// The manifest shim that keyword arguments `kw` describe.
    pub fn from_kwargs(kw: &Vec<(String, ArgValue)>) -> (r: CargoManifest)
        ensures
            r.name@ == str_arg(kw@, "name"@),
            r.vendor@ == str_arg(kw@, "vendor"@),
    {
        CargoManifest { name: get_str(kw, "name"), vendor: get_str(kw, "vendor") }
    }
}

impl FileGroup {
    /// The file group that keyword arguments `kw` describe; its `srcs` must
    /// be a `glob` call.
    pub fn from_kwargs(kw: &Vec<(String, ArgValue)>) -> (r: Result<FileGroup, EvalError>)
        ensures
            r is Err <==> !(lookup_arg(kw@, "srcs"@) matches Some(ArgValue::Glob(g))
                && g.positional@.len() <= 1),
            r matches Ok(f) ==> filegroup_described_by(f, kw@),
    {
        let srcs = match find_arg(kw, "srcs") {
            Some(ArgValue::Glob(g)) => match Glob::from_call(g) {
                Ok(x) => x,
                Err(e) => {
                    return Err(e);
                },
            },
            _ => {
                return Err(EvalError::NotAGlob);
            },
        };
        Ok(FileGroup { name: get_str(kw, "name"), srcs, out: get_opt_str(kw, "out") })
    }
}

/// `r` is the record that call `c` describes.
pub open spec fn call_describes(c: Call, r: Rule) -> bool {
    if c.func@ == "rust_library"@ {
        r matches Rule::RustLibrary(x) && RustLibrary::described_by(x, c.kwargs@)
    } else if c.func@ == "rust_binary"@ {
        r matches Rule::RustBinary(x) && RustBinary::described_by(x, c.kwargs@)
    } else if c.func@ == "buildscript_run"@ {
        r matches Rule::BuildscriptRun(x) && BuildscriptRun::described_by(x, c.kwargs@)
    } else if c.func@ == "http_archive"@ {
        r matches Rule::HttpArchive(x) && HttpArchive::described_by(x, c.kwargs@)
    } else if c.func@ == "filegroup"@ {
        r matches Rule::FileGroup(x) && filegroup_described_by(x, c.kwargs@)
    } else if c.func@ == "cargo_manifest"@ {
        r matches Rule::CargoManifest(x) && x.name@ == str_arg(c.kwargs@, "name"@) && x.vendor@
            == str_arg(c.kwargs@, "vendor"@)
    } else {
        false
    }
}

/// Call `c` cannot be turned into a record: its constructor is unknown, or
/// it is a file group whose sources are not a proper `glob` call.
pub open spec fn call_fails(c: Call) -> bool {
    if c.func@ == "filegroup"@ {
        !(lookup_arg(c.kwargs@, "srcs"@) matches Some(ArgValue::Glob(g)) && g.positional@.len() <= 1)
    } else {
        !(c.func@ == "rust_library"@ || c.func@ == "rust_binary"@ || c.func@ == "buildscript_run"@
            || c.func@ == "http_archive"@ || c.func@ == "cargo_manifest"@)
    }
}

/// The record that call `c` describes.
pub fn rule_from_call(c: &Call) -> (r: Result<Rule, EvalError>)
    ensures
        r is Err <==> call_fails(*c),
        r matches Ok(x) ==> call_describes(*c, x) && x.wf(),
{
    proof {
        reveal_strlit("rust_library");
        reveal_strlit("rust_binary");
        reveal_strlit("buildscript_run");
        reveal_strlit("http_archive");
        reveal_strlit("filegroup");
        reveal_strlit("cargo_manifest");
        assert("rust_library"@[0] != "http_archive"@[0]);
        assert("rust_library"@.len() != "filegroup"@.len());
        assert("rust_binary"@.len() != "filegroup"@.len());
        assert("buildscript_run"@.len() != "filegroup"@.len());
        assert("http_archive"@.len() != "filegroup"@.len());
        assert("cargo_manifest"@.len() != "filegroup"@.len());
    }
    let f = &c.func;
    if *f == String::from_str("rust_library") {
        Ok(Rule::RustLibrary(RustLibrary::from_kwargs(&c.kwargs)))
    } else if *f == String::from_str("rust_binary") {
        Ok(Rule::RustBinary(RustBinary::from_kwargs(&c.kwargs)))
    } else if *f == String::from_str("buildscript_run") {
        Ok(Rule::BuildscriptRun(BuildscriptRun::from_kwargs(&c.kwargs)))
    } else if *f == String::from_str("http_archive") {
        Ok(Rule::HttpArchive(HttpArchive::from_kwargs(&c.kwargs)))
    } else if *f == String::from_str("filegroup") {
        match FileGroup::from_kwargs(&c.kwargs) {
            Ok(g) => Ok(Rule::FileGroup(g)),
            Err(e) => Err(e),
        }
    } else if *f == String::from_str("cargo_manifest") {
        Ok(Rule::CargoManifest(CargoManifest::from_kwargs(&c.kwargs)))
    } else {
        Err(EvalError::UnknownRule(f.clone()))
    }
}

/// The records that the recorded calls of a file describe, in call order.
/// Any call that cannot be turned into a record fails the whole file, so that
/// no hand edit is lost without notice.
pub fn rules_from_calls(calls: &Vec<Call>) -> (r: Result<Vec<Rule>, EvalError>)
    ensures
        r is Err <==> exists|i: int| 0 <= i < calls@.len() && call_fails(#[trigger] calls@[i]),
        r matches Ok(rules) ==> rules@.len() == calls@.len() && forall|i: int|
            0 <= i < calls@.len() ==> call_describes(#[trigger] calls@[i], rules@[i]) && rules@[i].wf(),
{
    let mut rules: Vec<Rule> = Vec::new();
    let mut i: usize = 0;
    while i < calls.len()
        invariant
            0 <= i <= calls@.len(),
            rules@.len() == i,
            forall|j: int| 0 <= j < i ==> !call_fails(#[trigger] calls@[j]),
            forall|j: int| 0 <= j < i ==> call_describes(#[trigger] calls@[j], rules@[j]) && rules@[j].wf(),
        decreases calls@.len() - i,
    {
        match rule_from_call(&calls[i]) {
            Ok(x) => {
                rules.push(x);
            },
            Err(e) => {
                return Err(e);
            },
        }
        i = i + 1;
    }
    Ok(rules)
}

} // verus!
