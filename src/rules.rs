//! The rule records that the compiler emits, and the merge of freshly
//! compiled records with those recovered from an existing file.
use vstd::prelude::*;
use crate::strset::{distinct, distinct_keys, pairs_map, patch_map, strs, union_into};

verus! {

/// A `load(...)` directive: the file and the symbols taken from it.
pub struct Load {
    pub bzl: String,
    pub items: Vec<String>,
}

/// An archive fetched from a remote location.
pub struct HttpArchive {
    pub name: String,
    pub urls: Vec<String>,
    pub sha256: String,
    pub _type: String,
    pub strip_prefix: String,
    pub out: Option<String>,
}

/// The manifest shim of a package.
pub struct CargoManifest {
    pub name: String,
    pub vendor: String,
}

/// A library compilation.
pub struct RustLibrary {
    pub name: String,
    pub srcs: Vec<String>,
    pub crate_name: String,
    pub crate_root: String,
    pub edition: String,
    pub env: Vec<(String, String)>,
    pub features: Vec<String>,
    pub rustc_flags: Vec<String>,
    pub proc_macro: Option<bool>,
    pub named_deps: Vec<(String, String)>,
    pub visibility: Vec<String>,
    pub deps: Vec<String>,
}

/// A binary compilation.
pub struct RustBinary {
    pub name: String,
    pub srcs: Vec<String>,
    pub crate_name: String,
    pub crate_root: String,
    pub edition: String,
    pub env: Vec<(String, String)>,
    pub features: Vec<String>,
    pub rustc_flags: Vec<String>,
    pub named_deps: Vec<(String, String)>,
    pub visibility: Vec<String>,
    pub deps: Vec<String>,
}

/// The execution of a compiled build script.
pub struct BuildscriptRun {
    pub name: String,
    pub package_name: String,
    pub buildscript_rule: String,
    pub env: Vec<(String, String)>,
    pub env_srcs: Vec<String>,
    pub features: Vec<String>,
    pub version: String,
    pub manifest_dir: String,
    pub visibility: Vec<String>,
}

/// Include and exclude patterns.
pub struct Glob {
    pub included: Vec<String>,
    pub excluded: Vec<String>,
}

/// A group of files selected by a glob.
pub struct FileGroup {
    pub name: String,
    pub srcs: Glob,
    pub out: Option<String>,
}

/// One rule record.
pub enum Rule {
    Load(Load),
    HttpArchive(HttpArchive),
    FileGroup(FileGroup),
    CargoManifest(CargoManifest),
    RustLibrary(RustLibrary),
    RustBinary(RustBinary),
    BuildscriptRun(BuildscriptRun),
}

impl Load {
    pub open spec fn wf(&self) -> bool {
        distinct(self.items@)
    }
}

impl HttpArchive {
    pub open spec fn wf(&self) -> bool {
        distinct(self.urls@)
    }
}

impl Glob {
    pub open spec fn wf(&self) -> bool {
        distinct(self.included@) && distinct(self.excluded@)
    }
}

impl FileGroup {
    pub open spec fn wf(&self) -> bool {
        self.srcs.wf()
    }
}

impl RustLibrary {
    /// Each set holds no string twice and each map no key twice.
    pub open spec fn wf(&self) -> bool {
        &&& distinct(self.srcs@)
        &&& distinct_keys(self.env@)
        &&& distinct(self.features@)
        &&& distinct(self.rustc_flags@)
        &&& distinct_keys(self.named_deps@)
        &&& distinct(self.visibility@)
        &&& distinct(self.deps@)
    }

    /// `new` is `old` patched from `e`: the identity fields of `old` stay,
    /// each set is the union of both, each map keeps `old`'s entries and
    /// gains those of `e` whose key `old` lacks.
    pub open spec fn patched(old: &RustLibrary, e: &RustLibrary, new: &RustLibrary) -> bool {
        &&& new.wf()
        &&& new.name == old.name
        &&& new.crate_name == old.crate_name
        &&& new.crate_root == old.crate_root
        &&& new.edition == old.edition
        &&& new.proc_macro == (if old.proc_macro is Some { old.proc_macro } else { e.proc_macro })
        &&& strs(new.srcs@) == strs(old.srcs@) + strs(e.srcs@)
        &&& strs(new.features@) == strs(old.features@) + strs(e.features@)
        &&& strs(new.rustc_flags@) == strs(old.rustc_flags@) + strs(e.rustc_flags@)
        &&& strs(new.visibility@) == strs(old.visibility@) + strs(e.visibility@)
        &&& strs(new.deps@) == strs(old.deps@) + strs(e.deps@)
        &&& pairs_map(new.env@) == pairs_map(e.env@).union_prefer_right(pairs_map(old.env@))
        &&& pairs_map(new.named_deps@) == pairs_map(e.named_deps@).union_prefer_right(
            pairs_map(old.named_deps@),
        )
    }

    /// Folds the hand-kept entries of `other` into this freshly compiled rule.
    pub fn patch_from(&mut self, other: &RustLibrary)
        requires
            old(self).wf(),
            other.wf(),
        ensures
            RustLibrary::patched(old(self), other, final(self)),
    {
        patch_map(&mut self.env, &other.env);
        patch_map(&mut self.named_deps, &other.named_deps);
        union_into(&mut self.srcs, &other.srcs);
        union_into(&mut self.features, &other.features);
        union_into(&mut self.rustc_flags, &other.rustc_flags);
        union_into(&mut self.visibility, &other.visibility);
        union_into(&mut self.deps, &other.deps);
        if self.proc_macro.is_none() {
            self.proc_macro = other.proc_macro;
        }
    }
}

impl RustBinary {
    /// Each set holds no string twice and each map no key twice.
    pub open spec fn wf(&self) -> bool {
        &&& distinct(self.srcs@)
        &&& distinct_keys(self.env@)
        &&& distinct(self.features@)
        &&& distinct(self.rustc_flags@)
        &&& distinct_keys(self.named_deps@)
        &&& distinct(self.visibility@)
        &&& distinct(self.deps@)
    }

    /// `new` is `old` patched from `e`, as for libraries.
    pub open spec fn patched(old: &RustBinary, e: &RustBinary, new: &RustBinary) -> bool {
        &&& new.wf()
        &&& new.name == old.name
        &&& new.crate_name == old.crate_name
        &&& new.crate_root == old.crate_root
        &&& new.edition == old.edition
        &&& strs(new.srcs@) == strs(old.srcs@) + strs(e.srcs@)
        &&& strs(new.features@) == strs(old.features@) + strs(e.features@)
        &&& strs(new.rustc_flags@) == strs(old.rustc_flags@) + strs(e.rustc_flags@)
        &&& strs(new.visibility@) == strs(old.visibility@) + strs(e.visibility@)
        &&& strs(new.deps@) == strs(old.deps@) + strs(e.deps@)
        &&& pairs_map(new.env@) == pairs_map(e.env@).union_prefer_right(pairs_map(old.env@))
        &&& pairs_map(new.named_deps@) == pairs_map(e.named_deps@).union_prefer_right(
            pairs_map(old.named_deps@),
        )
    }

    /// Folds the hand-kept entries of `other` into this freshly compiled rule.
    pub fn patch_from(&mut self, other: &RustBinary)
        requires
            old(self).wf(),
            other.wf(),
        ensures
            RustBinary::patched(old(self), other, final(self)),
    {
        patch_map(&mut self.env, &other.env);
        patch_map(&mut self.named_deps, &other.named_deps);
        union_into(&mut self.srcs, &other.srcs);
        union_into(&mut self.features, &other.features);
        union_into(&mut self.rustc_flags, &other.rustc_flags);
        union_into(&mut self.visibility, &other.visibility);
        union_into(&mut self.deps, &other.deps);
    }
}

impl BuildscriptRun {
    /// Each set holds no string twice and the map no key twice.
    pub open spec fn wf(&self) -> bool {
        &&& distinct_keys(self.env@)
        &&& distinct(self.env_srcs@)
        &&& distinct(self.features@)
        &&& distinct(self.visibility@)
    }

    /// `new` is `old` patched from `e`, as for libraries.
    pub open spec fn patched(old: &BuildscriptRun, e: &BuildscriptRun, new: &BuildscriptRun) -> bool {
        &&& new.wf()
        &&& new.name == old.name
        &&& new.package_name == old.package_name
        &&& new.buildscript_rule == old.buildscript_rule
        &&& new.version == old.version
        &&& new.manifest_dir == old.manifest_dir
        &&& strs(new.env_srcs@) == strs(old.env_srcs@) + strs(e.env_srcs@)
        &&& strs(new.features@) == strs(old.features@) + strs(e.features@)
        &&& strs(new.visibility@) == strs(old.visibility@) + strs(e.visibility@)
        &&& pairs_map(new.env@) == pairs_map(e.env@).union_prefer_right(pairs_map(old.env@))
    }

    /// Folds the hand-kept entries of `other` into this freshly compiled rule.
    pub fn patch_from(&mut self, other: &BuildscriptRun)
        requires
            old(self).wf(),
            other.wf(),
        ensures
            BuildscriptRun::patched(old(self), other, final(self)),
    {
        patch_map(&mut self.env, &other.env);
        union_into(&mut self.env_srcs, &other.env_srcs);
        union_into(&mut self.features, &other.features);
        union_into(&mut self.visibility, &other.visibility);
    }
}


impl Glob {
    /// Adds the patterns of `other` to both sets.
    pub fn patch_from(&mut self, other: &Glob)
        requires
            old(self).wf(),
        ensures
            final(self).wf(),
            strs(final(self).included@) == strs(old(self).included@) + strs(other.included@),
            strs(final(self).excluded@) == strs(old(self).excluded@) + strs(other.excluded@),
    {
        union_into(&mut self.included, &other.included);
        union_into(&mut self.excluded, &other.excluded);
    }
}

impl FileGroup {
    /// `new` is `old` patched from `e`: the name stays, the glob grows.
    pub open spec fn patched(old: &FileGroup, e: &FileGroup, new: &FileGroup) -> bool {
        &&& new.wf()
        &&& new.name == old.name
        &&& new.out == (if old.out is Some { old.out } else { e.out })
        &&& strs(new.srcs.included@) == strs(old.srcs.included@) + strs(e.srcs.included@)
        &&& strs(new.srcs.excluded@) == strs(old.srcs.excluded@) + strs(e.srcs.excluded@)
    }

    /// Folds the hand-kept patterns of `other` into this freshly compiled rule.
    pub fn patch_from(&mut self, other: &FileGroup)
        requires
            old(self).wf(),
        ensures
            FileGroup::patched(old(self), other, final(self)),
    {
        self.srcs.patch_from(&other.srcs);
        if self.out.is_none() {
            self.out = other.out.clone();
        }
    }
}

impl HttpArchive {
    /// `new` is `old` patched from `e`: the coordinates stay, the urls grow.
    pub open spec fn patched(old: &HttpArchive, e: &HttpArchive, new: &HttpArchive) -> bool {
        &&& new.wf()
        &&& new.name == old.name
        &&& new.sha256 == old.sha256
        &&& new._type == old._type
        &&& new.strip_prefix == old.strip_prefix
        &&& new.out == (if old.out is Some { old.out } else { e.out })
        &&& strs(new.urls@) == strs(old.urls@) + strs(e.urls@)
    }

    /// Folds the hand-kept urls of `other` into this freshly compiled rule.
    pub fn patch_from(&mut self, other: &HttpArchive)
        requires
            old(self).wf(),
        ensures
            HttpArchive::patched(old(self), other, final(self)),
    {
        union_into(&mut self.urls, &other.urls);
        if self.out.is_none() {
            self.out = other.out.clone();
        }
    }
}

impl Rule {
    pub open spec fn wf(&self) -> bool {
        match self {
            Rule::Load(r) => r.wf(),
            Rule::HttpArchive(r) => r.wf(),
            Rule::FileGroup(r) => r.wf(),
            Rule::CargoManifest(_) => true,
            Rule::RustLibrary(r) => r.wf(),
            Rule::RustBinary(r) => r.wf(),
            Rule::BuildscriptRun(r) => r.wf(),
        }
    }

    /// Both records are built by the same constructor.
    pub open spec fn same_kind(&self, other: &Rule) -> bool {
        match (self, other) {
            (Rule::Load(_), Rule::Load(_)) => true,
            (Rule::HttpArchive(_), Rule::HttpArchive(_)) => true,
            (Rule::FileGroup(_), Rule::FileGroup(_)) => true,
            (Rule::CargoManifest(_), Rule::CargoManifest(_)) => true,
            (Rule::RustLibrary(_), Rule::RustLibrary(_)) => true,
            (Rule::RustBinary(_), Rule::RustBinary(_)) => true,
            (Rule::BuildscriptRun(_), Rule::BuildscriptRun(_)) => true,
            _ => false,
        }
    }

    /// Whether both records are built by the same constructor.
    pub fn is_same_kind(&self, other: &Rule) -> (r: bool)
        ensures
            r == self.same_kind(other),
    {
        match (self, other) {
            (Rule::Load(_), Rule::Load(_)) => true,
            (Rule::HttpArchive(_), Rule::HttpArchive(_)) => true,
            (Rule::FileGroup(_), Rule::FileGroup(_)) => true,
            (Rule::CargoManifest(_), Rule::CargoManifest(_)) => true,
            (Rule::RustLibrary(_), Rule::RustLibrary(_)) => true,
            (Rule::RustBinary(_), Rule::RustBinary(_)) => true,
            (Rule::BuildscriptRun(_), Rule::BuildscriptRun(_)) => true,
            _ => false,
        }
    }

    /// The set-valued fields of the record, in a fixed order per kind.
    pub open spec fn set_fields(&self) -> Seq<Set<Seq<char>>> {
        match self {
            Rule::Load(r) => seq![strs(r.items@)],
            Rule::HttpArchive(r) => seq![strs(r.urls@)],
            Rule::FileGroup(r) => seq![strs(r.srcs.included@), strs(r.srcs.excluded@)],
            Rule::CargoManifest(_) => seq![],
            Rule::RustLibrary(r) => seq![
                strs(r.srcs@),
                strs(r.features@),
                strs(r.rustc_flags@),
                strs(r.visibility@),
                strs(r.deps@),
            ],
            Rule::RustBinary(r) => seq![
                strs(r.srcs@),
                strs(r.features@),
                strs(r.rustc_flags@),
                strs(r.visibility@),
                strs(r.deps@),
            ],
            Rule::BuildscriptRun(r) => seq![
                strs(r.env_srcs@),
                strs(r.features@),
                strs(r.visibility@),
            ],
        }
    }

    /// The map-valued fields of the record, in a fixed order per kind.
    pub open spec fn map_fields(&self) -> Seq<Map<Seq<char>, Seq<char>>> {
        match self {
            Rule::RustLibrary(r) => seq![pairs_map(r.env@), pairs_map(r.named_deps@)],
            Rule::RustBinary(r) => seq![pairs_map(r.env@), pairs_map(r.named_deps@)],
            Rule::BuildscriptRun(r) => seq![pairs_map(r.env@)],
            _ => seq![],
        }
    }
}

/// The view of an optional string.
pub open spec fn opt_view(o: Option<String>) -> Option<Seq<char>> {
    match o {
        Some(s) => Some(s@),
        None => None,
    }
}

/// The view of an optional flag.
pub open spec fn flag_view(o: Option<bool>) -> Option<Seq<char>> {
    match o {
        Some(true) => Some(seq!['t']),
        Some(false) => Some(seq!['f']),
        None => None,
    }
}

impl Rule {
    /// The string-valued and optional fields of the record, in a fixed order
    /// per kind.
    pub open spec fn scalar_fields(&self) -> Seq<Option<Seq<char>>> {
        match self {
            Rule::Load(r) => seq![Some(r.bzl@)],
            Rule::HttpArchive(r) => seq![
                Some(r.name@),
                Some(r.sha256@),
                Some(r._type@),
                Some(r.strip_prefix@),
                opt_view(r.out),
            ],
            Rule::FileGroup(r) => seq![Some(r.name@), opt_view(r.out)],
            Rule::CargoManifest(r) => seq![Some(r.name@), Some(r.vendor@)],
            Rule::RustLibrary(r) => seq![
                Some(r.name@),
                Some(r.crate_name@),
                Some(r.crate_root@),
                Some(r.edition@),
                flag_view(r.proc_macro),
            ],
            Rule::RustBinary(r) => seq![
                Some(r.name@),
                Some(r.crate_name@),
                Some(r.crate_root@),
                Some(r.edition@),
            ],
            Rule::BuildscriptRun(r) => seq![
                Some(r.name@),
                Some(r.package_name@),
                Some(r.buildscript_rule@),
                Some(r.version@),
                Some(r.manifest_dir@),
            ],
        }
    }
}

/// Two records say the same: same kind, and the same value in each field,
/// sets and maps compared as sets and maps.
pub open spec fn same_rule(a: Rule, b: Rule) -> bool {
    &&& a.same_kind(&b)
    &&& a.scalar_fields() == b.scalar_fields()
    &&& a.set_fields() == b.set_fields()
    &&& a.map_fields() == b.map_fields()
}

/// `new` is what patching the fresh record `old` with the recovered record
/// `e` gives: kinds that carry hand-kept fields are patched when `e` is of the
/// same kind, and every other record stays as it was.
pub open spec fn rule_patched(old: Rule, e: Option<Rule>, new: Rule) -> bool {
    match (old, e) {
        (Rule::RustLibrary(o), Some(Rule::RustLibrary(x))) => new is RustLibrary
            && RustLibrary::patched(&o, &x, &new->RustLibrary_0),
        (Rule::RustBinary(o), Some(Rule::RustBinary(x))) => new is RustBinary
            && RustBinary::patched(&o, &x, &new->RustBinary_0),
        (Rule::BuildscriptRun(o), Some(Rule::BuildscriptRun(x))) => new is BuildscriptRun
            && BuildscriptRun::patched(&o, &x, &new->BuildscriptRun_0),
        (Rule::FileGroup(o), Some(Rule::FileGroup(x))) => new is FileGroup
            && FileGroup::patched(&o, &x, &new->FileGroup_0),
        (Rule::HttpArchive(o), Some(Rule::HttpArchive(x))) => new is HttpArchive
            && HttpArchive::patched(&o, &x, &new->HttpArchive_0),
        _ => new == old,
    }
}

/// The last record of `existing` built by the same constructor as `r`.
pub open spec fn last_of_kind(existing: Seq<Rule>, r: Rule) -> Option<Rule>
    decreases existing.len(),
{
    if existing.len() == 0 {
        None
    } else if existing.last().same_kind(&r) {
        Some(existing.last())
    } else {
        last_of_kind(existing.drop_last(), r)
    }
}

/// Finds the last record of `existing` built by the same constructor as `r`.
pub fn find_last_of_kind<'a>(existing: &'a Vec<Rule>, r: &Rule) -> (found: Option<&'a Rule>)
    ensures
        found matches Some(x) ==> last_of_kind(existing@, *r) == Some(*x),
        found is None ==> last_of_kind(existing@, *r) is None,
        found matches Some(x) ==> exists|i: int| 0 <= i < existing@.len() && existing@[i] == *x,
{
    let mut i: usize = existing.len();
    assert(existing@.subrange(0, i as int) =~= existing@);
    while i > 0
        invariant
            i <= existing.len(),
            last_of_kind(existing@, *r) == last_of_kind(existing@.subrange(0, i as int), *r),
        decreases i,
    {
        let ghost pre = existing@.subrange(0, i as int);
        assert(pre.drop_last() =~= existing@.subrange(0, i - 1));
        if existing[i - 1].is_same_kind(r) {
            return Some(&existing[i - 1]);
        }
        i = i - 1;
    }
    None
}

/// Patches each freshly compiled record of `to_patch` with the last record of
/// the same kind in `existing`, the records recovered from an existing file.
pub fn patch_buck_rules(existing: &Vec<Rule>, to_patch: &mut Vec<Rule>)
    requires
        forall|i: int| 0 <= i < existing@.len() ==> (#[trigger] existing@[i]).wf(),
        forall|i: int| 0 <= i < old(to_patch)@.len() ==> (#[trigger] old(to_patch)@[i]).wf(),
    ensures
        final(to_patch)@.len() == old(to_patch)@.len(),
        forall|i: int|
            0 <= i < old(to_patch)@.len() ==> rule_patched(
                #[trigger] old(to_patch)@[i],
                last_of_kind(existing@, old(to_patch)@[i]),
                final(to_patch)@[i],
            ),
{
    let ghost orig = to_patch@;
    let n: usize = to_patch.len();
    let mut rest: Vec<Rule> = Vec::new();
    std::mem::swap(to_patch, &mut rest);
    let mut i: usize = 0;
    while rest.len() > 0
        invariant
            i + rest@.len() == orig.len(),
            orig.len() == n,
            rest@ == orig.subrange(i as int, orig.len() as int),
            to_patch@.len() == i,
            forall|j: int| 0 <= j < existing@.len() ==> (#[trigger] existing@[j]).wf(),
            forall|j: int| 0 <= j < orig.len() ==> (#[trigger] orig[j]).wf(),
            forall|j: int|
                0 <= j < i ==> rule_patched(
                    #[trigger] orig[j],
                    last_of_kind(existing@, orig[j]),
                    to_patch@[j],
                ),
        decreases rest@.len(),
    {
        let rule = rest.remove(0);
        assert(rule == orig[i as int]);
        let found = find_last_of_kind(existing, &rule);
        let patched = match rule {
            Rule::RustLibrary(mut fresh) => {
                if let Some(Rule::RustLibrary(e)) = found {
                    fresh.patch_from(e);
                }
                Rule::RustLibrary(fresh)
            },
            Rule::RustBinary(mut fresh) => {
                if let Some(Rule::RustBinary(e)) = found {
                    fresh.patch_from(e);
                }
                Rule::RustBinary(fresh)
            },
            Rule::BuildscriptRun(mut fresh) => {
                if let Some(Rule::BuildscriptRun(e)) = found {
                    fresh.patch_from(e);
                }
                Rule::BuildscriptRun(fresh)
            },
            Rule::FileGroup(mut fresh) => {
                if let Some(Rule::FileGroup(e)) = found {
                    fresh.patch_from(e);
                }
                Rule::FileGroup(fresh)
            },
            Rule::HttpArchive(mut fresh) => {
                if let Some(Rule::HttpArchive(e)) = found {
                    fresh.patch_from(e);
                }
                Rule::HttpArchive(fresh)
            },
            other => other,
        };
        to_patch.push(patched);
        i = i + 1;
    }
}

/// Patching never loses an entry: each set-valued field of the result holds
/// that field of the fresh record and of the recovered one, and each map-valued
/// field keeps every key of the recovered record, with its value wherever the
/// fresh record lacked that key.
pub proof fn lemma_patch_non_destructive(fresh: Rule, existing: Rule, result: Rule)
    requires
        fresh.same_kind(&existing),
        rule_patched(fresh, Some(existing), result),
    ensures
        result.set_fields().len() == fresh.set_fields().len(),
        forall|i: int|
            0 <= i < fresh.set_fields().len() ==> fresh.set_fields()[i].subset_of(
                #[trigger] result.set_fields()[i],
            ),
        forall|i: int|
            0 <= i < fresh.set_fields().len() && !(fresh is Load) ==> existing.set_fields()[i].subset_of(
                #[trigger] result.set_fields()[i],
            ),
        result.map_fields().len() == fresh.map_fields().len(),
        forall|i: int, k: Seq<char>|
            0 <= i < fresh.map_fields().len() && #[trigger] fresh.map_fields()[i].contains_key(k)
                ==> result.map_fields()[i].contains_key(k) && result.map_fields()[i][k]
                == fresh.map_fields()[i][k],
        forall|i: int, k: Seq<char>|
            0 <= i < fresh.map_fields().len() && #[trigger] existing.map_fields()[i].contains_key(k)
                && !fresh.map_fields()[i].contains_key(k) ==> result.map_fields()[i].contains_key(k)
                && result.map_fields()[i][k] == existing.map_fields()[i][k],
{
}

} // verus!
