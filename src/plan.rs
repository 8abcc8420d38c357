//! What a run does for each package id that the diff lists.
use vstd::prelude::*;
use crate::buckify::{
    BuckalError, buckify_dep_node, buckify_root_node, dep_node_fails, dep_node_rules,
    root_node_fails, root_node_rules,
};
use crate::cache::{BuckalChange, ChangeType};
use crate::graph::{BuckalContext, find_node, find_package, node_of, package_of};
use crate::pkgid::{parse_package_id, pkgid_parts};
use crate::rules::Rule;

verus! {

/// The work for one package id.
pub enum Action {
    /// Nothing to do.
    Skip,
    /// Write `rules` as the build file of the directory `dir`, first merging
    /// the hand-kept fields of the file already there if `merge`.
    Write { rules: Vec<Rule>, dir: String, merge: bool },
    /// Delete the vendored sources at `dir`, those of `name` at `version`.
    Remove { name: String, version: String, dir: String },
}

/// The directory of a registry package's vendored sources, below the root.
pub open spec fn vendor_dir(name: Seq<char>, version: Seq<char>) -> Seq<char> {
    "third-party/rust/crates/"@ + name + "/"@ + version
}

/// The directory of a registry package's vendored sources, below the root.
pub fn get_vendor_dir(name: &String, version: &String) -> (r: String)
    ensures
        r@ == vendor_dir(name@, version@),
{
    let mut s = String::from_str("third-party/rust/crates/");
    s.append(name.as_str());
    s.append("/");
    s.append(version.as_str());
    s
}

/// Why a change cannot be planned.
pub enum PlanError {
    /// Compiling the node failed.
    Compile(BuckalError),
    /// A removed id is not a well-formed package id.
    BadPackageId(String),
}

/// `r` is the work planned for package id `id`, which changed as `change`
/// says. The root package is left alone (it is flushed on its own), as are ids
/// that the graph has no node for and, when `separate` is set, workspace
/// packages. A removed id plans the deletion of its vendored sources.
pub open spec fn planned(id: Seq<char>, change: ChangeType, ctx: BuckalContext, r: Result<Action, PlanError>) -> bool {
    if change == ChangeType::Removed {
        match pkgid_parts(id) {
            Some((n, v)) => r matches Ok(Action::Remove { name, version, dir }) && name@ == n
                && version@ == v && dir@ == vendor_dir(n, v),
            None => r matches Err(PlanError::BadPackageId(_)),
        }
    } else if id == ctx.root@ || node_of(ctx.nodes@, id) is None {
        r matches Ok(Action::Skip)
    } else {
        let node = node_of(ctx.nodes@, id)->Some_0;
        match package_of(ctx.packages@, id) {
            None => r is Err,
            Some(p) => if ctx.separate && p.source is None {
                r matches Ok(Action::Skip)
            } else if p.source is None {
                &&& (r is Err <==> root_node_fails(ctx, node))
                &&& (r matches Ok(Action::Write { rules, dir, merge }) && root_node_rules(
                    ctx,
                    node,
                    rules@,
                ) && dir@ == p.manifest_dir@ && merge == !ctx.no_merge) || r is Err
            } else {
                &&& (r is Err <==> dep_node_fails(ctx, node))
                &&& (r matches Ok(Action::Write { rules, dir, merge }) && dep_node_rules(
                    ctx,
                    node,
                    rules@,
                ) && dir@ == vendor_dir(p.name@, p.version@) && merge == !ctx.no_merge) || r is Err
            },
        }
    }
}

/// Plans the work for package id `id`, which changed as `change` says.
pub fn plan_change(id: &String, change: ChangeType, ctx: &BuckalContext) -> (r: Result<
    Action,
    PlanError,
>)
    requires
        ctx.wf(),
    ensures
        planned(id@, change, *ctx, r),
{
    if change == ChangeType::Removed {
        return match parse_package_id(id.as_str()) {
            Some((name, version)) => {
                let dir = get_vendor_dir(&name, &version);
                Ok(Action::Remove { name, version, dir })
            },
            None => Err(PlanError::BadPackageId(id.clone())),
        };
    }
    if *id == ctx.root {
        return Ok(Action::Skip);
    }
    let node = match find_node(&ctx.nodes, id) {
        Some(n) => n,
        None => {
            return Ok(Action::Skip);
        },
    };
    let p = match find_package(&ctx.packages, id) {
        Some(p) => p,
        None => {
            return Err(PlanError::Compile(BuckalError::MissingPackage(id.clone())));
        },
    };
    assert(node.id@ == id@) by {
        let k = choose|k: int| 0 <= k < ctx.nodes@.len() && ctx.nodes@[k].id@ == id@;
    }
    if ctx.separate && p.source.is_none() {
        return Ok(Action::Skip);
    }
    let merge = !ctx.no_merge;
    if p.source.is_none() {
        match buckify_root_node(node, ctx) {
            Ok(rules) => Ok(Action::Write { rules, dir: p.manifest_dir.clone(), merge }),
            Err(e) => Err(PlanError::Compile(e)),
        }
    } else {
        match buckify_dep_node(node, ctx) {
            Ok(rules) => {
                let dir = get_vendor_dir(&p.name, &p.version);
                Ok(Action::Write { rules, dir, merge })
            },
            Err(e) => Err(PlanError::Compile(e)),
        }
    }
}

impl BuckalChange {
    /// Plans the work for every listed change, in order; the first change
    /// that cannot be planned stops the run, so that nothing is written for a
    /// graph that does not compile.
    pub fn plan(&self, ctx: &BuckalContext) -> (r: Result<Vec<Action>, PlanError>)
        requires
            ctx.wf(),
        ensures
            r matches Ok(actions) ==> actions@.len() == self.changes@.len() && forall|i: int|
                0 <= i < actions@.len() ==> planned(
                    #[trigger] self.changes@[i].0@,
                    self.changes@[i].1,
                    *ctx,
                    Ok(actions@[i]),
                ),
            r is Err ==> exists|i: int|
                0 <= i < self.changes@.len() && planned(
                    #[trigger] self.changes@[i].0@,
                    self.changes@[i].1,
                    *ctx,
                    Err(r->Err_0),
                ),
    {
        let mut actions: Vec<Action> = Vec::new();
        let mut i: usize = 0;
        while i < self.changes.len()
            invariant
                0 <= i <= self.changes@.len(),
                ctx.wf(),
                actions@.len() == i,
                forall|j: int|
                    0 <= j < i ==> planned(
                        #[trigger] self.changes@[j].0@,
                        self.changes@[j].1,
                        *ctx,
                        Ok(actions@[j]),
                    ),
            decreases self.changes@.len() - i,
        {
            match plan_change(&self.changes[i].0, self.changes[i].1, ctx) {
                Ok(a) => {
                    actions.push(a);
                },
                Err(e) => {
                    return Err(e);
                },
            }
            i = i + 1;
        }
        Ok(actions)
    }
}

} // verus!
