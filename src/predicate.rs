//! Platform predicates that gate a dependency edge, evaluated against the
//! active target triple and condition flags.
use vstd::prelude::*;

verus! {

/// A condition flag, like `unix` or `target_os = "linux"`.
pub enum Cfg {
    Name(String),
    KeyPair(String, String),
}

/// A condition expression, like `all(unix, not(target_os = "macos"))`; an
/// `all` or `any` of several operands is a chain of `All` or `Any` pairs,
/// and one of no operands is `True` or `False`.
pub enum CfgExpr {
    Not(Box<CfgExpr>),
    All(Box<CfgExpr>, Box<CfgExpr>),
    Any(Box<CfgExpr>, Box<CfgExpr>),
    Value(Cfg),
    True,
    False,
}

/// The platform an edge is restricted to: a target triple or a condition.
pub enum PlatformPredicate {
    Name(String),
    Cfg(CfgExpr),
}

/// Two flags are the same flag.
pub open spec fn cfg_eq(a: Cfg, b: Cfg) -> bool {
    match (a, b) {
        (Cfg::Name(x), Cfg::Name(y)) => x@ == y@,
        (Cfg::KeyPair(k, v), Cfg::KeyPair(l, w)) => k@ == l@ && v@ == w@,
        _ => false,
    }
}

/// The active flags hold `c`.
pub open spec fn cfg_set_has(cfgs: Seq<Cfg>, c: Cfg) -> bool {
    exists|i: int| 0 <= i < cfgs.len() && cfg_eq(cfgs[i], c)
}

/// Whether `e` holds under the active flags.
pub open spec fn cfg_holds(e: CfgExpr, cfgs: Seq<Cfg>) -> bool
    decreases e,
{
    match e {
        CfgExpr::Not(b) => !cfg_holds(*b, cfgs),
        CfgExpr::All(l, r) => cfg_holds(*l, cfgs) && cfg_holds(*r, cfgs),
        CfgExpr::Any(l, r) => cfg_holds(*l, cfgs) || cfg_holds(*r, cfgs),
        CfgExpr::Value(c) => cfg_set_has(cfgs, c),
        CfgExpr::True => true,
        CfgExpr::False => false,
    }
}

/// Whether the predicate holds for the target triple and flags.
pub open spec fn predicate_holds(p: PlatformPredicate, triple: Seq<char>, cfgs: Seq<Cfg>) -> bool {
    match p {
        PlatformPredicate::Name(n) => n@ == triple,
        PlatformPredicate::Cfg(e) => cfg_holds(e, cfgs),
    }
}

impl Cfg {
    /// Whether both are the same flag.
    pub fn same(&self, other: &Cfg) -> (r: bool)
        ensures
            r == cfg_eq(*self, *other),
    {
        match (self, other) {
            (Cfg::Name(x), Cfg::Name(y)) => *x == *y,
            (Cfg::KeyPair(k, v), Cfg::KeyPair(l, w)) => *k == *l && *v == *w,
            _ => false,
        }
    }
}

/// Whether the active flags hold `c`.
pub fn cfgs_contain(cfgs: &Vec<Cfg>, c: &Cfg) -> (r: bool)
    ensures
        r == cfg_set_has(cfgs@, *c),
{
    let mut i: usize = 0;
    while i < cfgs.len()
        invariant
            0 <= i <= cfgs@.len(),
            forall|j: int| 0 <= j < i ==> !cfg_eq(cfgs@[j], *c),
        decreases cfgs@.len() - i,
    {
        if cfgs[i].same(c) {
            return true;
        }
        i = i + 1;
    }
    false
}

impl CfgExpr {
    /// Whether this expression holds under the active flags.
    pub fn matches(&self, cfgs: &Vec<Cfg>) -> (r: bool)
        ensures
            r == cfg_holds(*self, cfgs@),
        decreases self,
    {
        match self {
            CfgExpr::Not(b) => !b.matches(cfgs),
            CfgExpr::All(l, r) => l.matches(cfgs) && r.matches(cfgs),
            CfgExpr::Any(l, r) => l.matches(cfgs) || r.matches(cfgs),
            CfgExpr::Value(c) => cfgs_contain(cfgs, c),
            CfgExpr::True => true,
            CfgExpr::False => false,
        }
    }
}

impl PlatformPredicate {
    /// Whether the predicate holds for the target triple and flags.
    pub fn matches(&self, triple: &String, cfgs: &Vec<Cfg>) -> (r: bool)
        ensures
            r == predicate_holds(*self, triple@, cfgs@),
    {
        match self {
            PlatformPredicate::Name(n) => *n == *triple,
            PlatformPredicate::Cfg(e) => e.matches(cfgs),
        }
    }
}

} // verus!
