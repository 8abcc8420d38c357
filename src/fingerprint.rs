//! Content fingerprints of resolved nodes. A node is reduced to the set of
//! facts that make up its resolution (its id, each activated feature, each
//! kind of each edge with its platform); the facts are sorted, encoded, and
//! hashed, so the order in which a node lists them never matters. Each fact
//! encodes its parts so that they can be read back, so different facts never
//! share a text.
use vstd::prelude::*;
use vstd::utf8::{encode_scalar, encode_utf8, encode_utf8_decode_utf8};
use crate::cache::Fingerprint;
use crate::graph::{DepKindInfo, DependencyKind, Node, NodeDep};
use crate::order::{insert_sorted, lemma_sorted_exists, lemma_sorted_unique, sorted, sorted_views};
use crate::predicate::{Cfg, CfgExpr, PlatformPredicate};
use crate::strset::strs;

verus! {

/// The BLAKE3 digest of a byte string.
pub uninterp spec fn blake3_of(b: Seq<u8>) -> Seq<u8>;

/// Relies on `blake3::hash`: the 32-byte BLAKE3 digest of the input, which
/// depends on the input bytes alone.
#[verifier::external_body]
fn blake3_digest(b: &[u8]) -> (r: Fingerprint)
    ensures
        r@ == blake3_of(b@),
{
    blake3::hash(b).into()
}

/// A self-delimiting encoding of a string: each character twice, then the
/// unequal pair `\0`, `\u{1}`. No encoding is a prefix of another.
pub open spec fn tok(s: Seq<char>) -> Seq<char> {
    Seq::new((2 * s.len()) as nat, |k: int| s[k / 2]) + seq!['\u{0}', '\u{1}']
}

/// A string followed by more text can be read back off its encoding.
pub proof fn lemma_tok_split(a: Seq<char>, b: Seq<char>, x: Seq<char>, y: Seq<char>)
    requires
        tok(a) + x == tok(b) + y,
    ensures
        a == b,
        x == y,
{
    let l = tok(a) + x;
    let r = tok(b) + y;
    if a.len() < b.len() {
        let k = 2 * (a.len() as int);
        assert(l[k] == '\u{0}' && l[k + 1] == '\u{1}');
        assert(r[k] == b[k / 2]);
        assert(r[k + 1] == b[(k + 1) / 2]);
        assert(k / 2 == (k + 1) / 2);
    } else if b.len() < a.len() {
        let k = 2 * (b.len() as int);
        assert(r[k] == '\u{0}' && r[k + 1] == '\u{1}');
        assert(l[k] == a[k / 2]);
        assert(l[k + 1] == a[(k + 1) / 2]);
        assert(k / 2 == (k + 1) / 2);
    } else {
        assert forall|i: int| 0 <= i < a.len() implies a[i] == b[i] by {
            assert(l[2 * i] == a[(2 * i) / 2]);
            assert(r[2 * i] == b[(2 * i) / 2]);
        }
        assert(a =~= b);
        assert(x =~= l.subrange(tok(a).len() as int, l.len() as int));
        assert(y =~= r.subrange(tok(b).len() as int, r.len() as int));
    }
}

/// The encoding of a condition expression: a tag per node of the tree,
/// each name and value encoded by `tok`.
pub open spec fn cfg_enc(e: CfgExpr) -> Seq<char>
    decreases e,
{
    match e {
        CfgExpr::Not(b) => seq!['N'] + cfg_enc(*b),
        CfgExpr::All(l, r) => seq!['A'] + cfg_enc(*l) + cfg_enc(*r),
        CfgExpr::Any(l, r) => seq!['O'] + cfg_enc(*l) + cfg_enc(*r),
        CfgExpr::Value(Cfg::Name(n)) => seq!['V'] + tok(n@),
        CfgExpr::Value(Cfg::KeyPair(k, v)) => seq!['K'] + tok(k@) + tok(v@),
        CfgExpr::True => seq!['T'],
        CfgExpr::False => seq!['F'],
    }
}

/// Two condition expressions have the same shape, names and values.
pub open spec fn same_cfg(a: CfgExpr, b: CfgExpr) -> bool
    decreases a,
{
    match (a, b) {
        (CfgExpr::Not(x), CfgExpr::Not(y)) => same_cfg(*x, *y),
        (CfgExpr::All(l1, r1), CfgExpr::All(l2, r2)) => same_cfg(*l1, *l2) && same_cfg(*r1, *r2),
        (CfgExpr::Any(l1, r1), CfgExpr::Any(l2, r2)) => same_cfg(*l1, *l2) && same_cfg(*r1, *r2),
        (CfgExpr::Value(Cfg::Name(m)), CfgExpr::Value(Cfg::Name(n))) => m@ == n@,
        (CfgExpr::Value(Cfg::KeyPair(k1, v1)), CfgExpr::Value(Cfg::KeyPair(k2, v2))) => k1@ == k2@
            && v1@ == v2@,
        (CfgExpr::True, CfgExpr::True) => true,
        (CfgExpr::False, CfgExpr::False) => true,
        _ => false,
    }
}

/// A condition expression followed by more text can be read back off its
/// encoding.
pub proof fn lemma_cfg_split(a: CfgExpr, b: CfgExpr, x: Seq<char>, y: Seq<char>)
    requires
        cfg_enc(a) + x == cfg_enc(b) + y,
    ensures
        same_cfg(a, b),
        x == y,
    decreases a,
{
    let l = cfg_enc(a) + x;
    let r = cfg_enc(b) + y;
    let lt = l.subrange(1, l.len() as int);
    let rt = r.subrange(1, r.len() as int);
    assert(l[0] == r[0]);
    match a {
        CfgExpr::Not(p) => {
            let q = b->Not_0;
            assert(lt =~= cfg_enc(*p) + x);
            assert(rt =~= cfg_enc(*q) + y);
            lemma_cfg_split(*p, *q, x, y);
        },
        CfgExpr::All(l1, r1) => {
            let l2 = b->All_0;
            let r2 = b->All_1;
            assert(lt =~= cfg_enc(*l1) + (cfg_enc(*r1) + x));
            assert(rt =~= cfg_enc(*l2) + (cfg_enc(*r2) + y));
            lemma_cfg_split(*l1, *l2, cfg_enc(*r1) + x, cfg_enc(*r2) + y);
            lemma_cfg_split(*r1, *r2, x, y);
        },
        CfgExpr::Any(l1, r1) => {
            let l2 = b->Any_0;
            let r2 = b->Any_1;
            assert(lt =~= cfg_enc(*l1) + (cfg_enc(*r1) + x));
            assert(rt =~= cfg_enc(*l2) + (cfg_enc(*r2) + y));
            lemma_cfg_split(*l1, *l2, cfg_enc(*r1) + x, cfg_enc(*r2) + y);
            lemma_cfg_split(*r1, *r2, x, y);
        },
        CfgExpr::Value(Cfg::Name(m)) => {
            let n = b->Value_0->Name_0;
            assert(lt =~= tok(m@) + x);
            assert(rt =~= tok(n@) + y);
            lemma_tok_split(m@, n@, x, y);
        },
        CfgExpr::Value(Cfg::KeyPair(k1, v1)) => {
            let k2 = b->Value_0->KeyPair_0;
            let v2 = b->Value_0->KeyPair_1;
            assert(lt =~= tok(k1@) + (tok(v1@) + x));
            assert(rt =~= tok(k2@) + (tok(v2@) + y));
            lemma_tok_split(k1@, k2@, tok(v1@) + x, tok(v2@) + y);
            lemma_tok_split(v1@, v2@, x, y);
        },
        _ => {
            assert(lt =~= x);
            assert(rt =~= y);
        },
    }
}

/// The encoding of an edge's platform restriction.
pub open spec fn platform_enc(p: Option<PlatformPredicate>) -> Seq<char> {
    match p {
        None => seq!['-'],
        Some(PlatformPredicate::Name(n)) => seq!['t'] + tok(n@),
        Some(PlatformPredicate::Cfg(e)) => seq!['c'] + cfg_enc(e),
    }
}

/// Two platform restrictions are the same restriction.
pub open spec fn same_platform(a: Option<PlatformPredicate>, b: Option<PlatformPredicate>) -> bool {
    match (a, b) {
        (None, None) => true,
        (Some(PlatformPredicate::Name(m)), Some(PlatformPredicate::Name(n))) => m@ == n@,
        (Some(PlatformPredicate::Cfg(x)), Some(PlatformPredicate::Cfg(y))) => same_cfg(x, y),
        _ => false,
    }
}

proof fn lemma_platform_enc_injective(a: Option<PlatformPredicate>, b: Option<PlatformPredicate>)
    requires
        platform_enc(a) == platform_enc(b),
    ensures
        same_platform(a, b),
{
    let l = platform_enc(a);
    assert(l[0] == platform_enc(b)[0]);
    let lt = l.subrange(1, l.len() as int);
    match a {
        Some(PlatformPredicate::Name(m)) => {
            let n = b->Some_0->Name_0;
            assert(lt =~= tok(m@) + Seq::<char>::empty());
            assert(lt =~= tok(n@) + Seq::<char>::empty());
            lemma_tok_split(m@, n@, Seq::empty(), Seq::empty());
        },
        Some(PlatformPredicate::Cfg(x)) => {
            let y = b->Some_0->Cfg_0;
            assert(lt =~= cfg_enc(x) + Seq::<char>::empty());
            assert(lt =~= cfg_enc(y) + Seq::<char>::empty());
            lemma_cfg_split(x, y, Seq::empty(), Seq::empty());
        },
        None => {},
    }
}

/// The tag of an edge kind.
pub open spec fn kind_tag(k: DependencyKind) -> char {
    match k {
        DependencyKind::Normal => 'n',
        DependencyKind::Development => 'd',
        DependencyKind::Build => 'b',
        DependencyKind::Unknown => 'u',
    }
}

/// The fact that edge `d` carries kind `dk`.
pub open spec fn edge_fact(d: NodeDep, dk: DepKindInfo) -> Seq<char> {
    "E:"@ + tok(d.name@) + tok(d.pkg@) + seq![kind_tag(dk.kind)] + platform_enc(dk.target)
}

/// The fact that edge `d` exists, carrying no kind.
pub open spec fn bare_edge_fact(d: NodeDep) -> Seq<char> {
    "D:"@ + tok(d.name@) + tok(d.pkg@)
}

/// The facts that an edge contributes.
pub open spec fn edge_facts(d: NodeDep) -> Set<Seq<char>> {
    Set::new(
        |f: Seq<char>|
            (exists|j: int| 0 <= j < d.dep_kinds@.len() && f == edge_fact(d, #[trigger] d.dep_kinds@[j]))
                || (d.dep_kinds@.len() == 0 && f == bare_edge_fact(d)),
    )
}

/// The facts of a node: its id, its features, and the facts of its edges.
pub open spec fn node_facts(n: Node) -> Set<Seq<char>> {
    Set::new(
        |f: Seq<char>|
            f == "I:"@ + n.id@ || (exists|i: int| 0 <= i < n.features@.len() && f == "F:"@
                + #[trigger] n.features@[i]@) || (exists|i: int|
                0 <= i < n.deps@.len() && #[trigger] edge_facts(n.deps@[i]).contains(f)),
    )
}

/// The views of a sequence of strings.
pub open spec fn views(v: Seq<String>) -> Seq<Seq<char>> {
    v.map_values(|s: String| s@)
}

/// The facts of `n` in sorted order.
pub open spec fn sorted_facts(n: Node) -> Seq<Seq<char>> {
    choose|v: Seq<Seq<char>>| sorted_views(v) && v.to_set() == node_facts(n)
}

/// Each string in UTF-8, each followed by the byte `0xFF`, which UTF-8 never uses.
pub open spec fn bytes_of(v: Seq<Seq<char>>) -> Seq<u8>
    decreases v.len(),
{
    if v.len() == 0 {
        Seq::empty()
    } else {
        bytes_of(v.drop_last()) + encode_utf8(v.last()) + seq![0xFFu8]
    }
}

/// The bytes that a node's fingerprint hashes.
pub open spec fn digest_input(n: Node) -> Seq<u8> {
    bytes_of(sorted_facts(n))
}

/// A value with a content fingerprint.
pub trait BuckalExt {
    /// The fingerprint, as bytes.
    spec fn fingerprint_spec(&self) -> Seq<u8>;

    fn fingerprint(&self) -> (r: Fingerprint)
        ensures
            r@ == self.fingerprint_spec(),
    ;
}

fn cat(a: &str, b: &str) -> (r: String)
    ensures
        r@ == a@ + b@,
{
    let mut s = String::from_str(a);
    s.append(b);
    s
}

/// Appends the encoding of `s`.
fn push_tok(out: &mut String, s: &str)
    ensures
        final(out)@ == old(out)@ + tok(s@),
{
    let n = s.unicode_len();
    let ghost start = out@;
    let mut i: usize = 0;
    assert(Seq::new((2 * 0) as nat, |k: int| s@[k / 2]) =~= Seq::<char>::empty());
    while i < n
        invariant
            0 <= i <= n,
            n == s@.len(),
            out@ == start + Seq::new((2 * i) as nat, |k: int| s@[k / 2]),
        decreases n - i,
    {
        let c = s.substring_char(i, i + 1);
        out.append(c);
        out.append(c);
        assert(out@ =~= start + Seq::new((2 * (i + 1)) as nat, |k: int| s@[k / 2])) by {
            assert(c@[0] == s@[i as int]);
        }
        i = i + 1;
    }
    proof {
        reveal_strlit("\u{0}\u{1}");
    }
    out.append("\u{0}\u{1}");
    assert(out@ =~= start + tok(s@));
}

/// Appends the encoding of a condition expression.
fn push_cfg(out: &mut String, e: &CfgExpr)
    ensures
        final(out)@ == old(out)@ + cfg_enc(*e),
    decreases e,
{
    let ghost start = out@;
    match e {
        CfgExpr::Not(b) => {
            proof {
                reveal_strlit("N");
                assert("N"@ =~= seq!['N']);
            }
            out.append("N");
            push_cfg(out, b);
            assert(out@ =~= start + cfg_enc(*e));
        },
        CfgExpr::All(l, r) => {
            proof {
                reveal_strlit("A");
                assert("A"@ =~= seq!['A']);
            }
            out.append("A");
            push_cfg(out, l);
            push_cfg(out, r);
            assert(out@ =~= start + cfg_enc(*e));
        },
        CfgExpr::Any(l, r) => {
            proof {
                reveal_strlit("O");
                assert("O"@ =~= seq!['O']);
            }
            out.append("O");
            push_cfg(out, l);
            push_cfg(out, r);
            assert(out@ =~= start + cfg_enc(*e));
        },
        CfgExpr::Value(Cfg::Name(n)) => {
            proof {
                reveal_strlit("V");
                assert("V"@ =~= seq!['V']);
            }
            out.append("V");
            push_tok(out, n.as_str());
            assert(out@ =~= start + cfg_enc(*e));
        },
        CfgExpr::Value(Cfg::KeyPair(k, v)) => {
            proof {
                reveal_strlit("K");
                assert("K"@ =~= seq!['K']);
            }
            out.append("K");
            push_tok(out, k.as_str());
            push_tok(out, v.as_str());
            assert(out@ =~= start + cfg_enc(*e));
        },
        CfgExpr::True => {
            proof {
                reveal_strlit("T");
                assert("T"@ =~= seq!['T']);
            }
            out.append("T");
        },
        CfgExpr::False => {
            proof {
                reveal_strlit("F");
                assert("F"@ =~= seq!['F']);
            }
            out.append("F");
        },
    }
}

/// Appends the encoding of a platform restriction.
fn push_platform(out: &mut String, p: &Option<PlatformPredicate>)
    ensures
        final(out)@ == old(out)@ + platform_enc(*p),
{
    let ghost start = out@;
    match p {
        None => {
            proof {
                reveal_strlit("-");
                assert("-"@ =~= seq!['-']);
            }
            out.append("-");
        },
        Some(PlatformPredicate::Name(n)) => {
            proof {
                reveal_strlit("t");
                assert("t"@ =~= seq!['t']);
            }
            out.append("t");
            push_tok(out, n.as_str());
            assert(out@ =~= start + platform_enc(*p));
        },
        Some(PlatformPredicate::Cfg(e)) => {
            proof {
                reveal_strlit("c");
                assert("c"@ =~= seq!['c']);
            }
            out.append("c");
            push_cfg(out, e);
            assert(out@ =~= start + platform_enc(*p));
        },
    }
}

/// Appends the tag of an edge kind.
fn push_kind(out: &mut String, k: DependencyKind)
    ensures
        final(out)@ == old(out)@ + seq![kind_tag(k)],
{
    match k {
        DependencyKind::Normal => {
            proof {
                reveal_strlit("n");
                assert("n"@ =~= seq!['n']);
            }
            out.append("n");
        },
        DependencyKind::Development => {
            proof {
                reveal_strlit("d");
                assert("d"@ =~= seq!['d']);
            }
            out.append("d");
        },
        DependencyKind::Build => {
            proof {
                reveal_strlit("b");
                assert("b"@ =~= seq!['b']);
            }
            out.append("b");
        },
        DependencyKind::Unknown => {
            proof {
                reveal_strlit("u");
                assert("u"@ =~= seq!['u']);
            }
            out.append("u");
        },
    }
}

fn make_edge_prefix(tag: &str, d: &NodeDep) -> (r: String)
    ensures
        r@ == tag@ + tok(d.name@) + tok(d.pkg@),
{
    let mut s = String::from_str(tag);
    push_tok(&mut s, d.name.as_str());
    push_tok(&mut s, d.pkg.as_str());
    s
}

/// The facts of `n`, sorted.
pub fn collect_facts(n: &Node) -> (r: Vec<String>)
    ensures
        sorted(r@),
        strs(r@) == node_facts(*n),
{
    let mut facts: Vec<String> = Vec::new();
    assert(strs(facts@) =~= Set::<Seq<char>>::empty());
    insert_sorted(&mut facts, cat("I:", n.id.as_str()));
    let ghost id_fact = "I:"@ + n.id@;
    let mut i: usize = 0;
    while i < n.features.len()
        invariant
            0 <= i <= n.features@.len(),
            sorted(facts@),
            strs(facts@) == Set::new(
                |f: Seq<char>|
                    f == id_fact || (exists|k: int| 0 <= k < i && f == "F:"@ + #[trigger] n.features@[k]@),
            ),
        decreases n.features@.len() - i,
    {
        insert_sorted(&mut facts, cat("F:", n.features[i].as_str()));
        assert(strs(facts@) =~= Set::new(
            |f: Seq<char>|
                f == id_fact || (exists|k: int| 0 <= k < i + 1 && f == "F:"@ + #[trigger] n.features@[k]@),
        ));
        i = i + 1;
    }
    let ghost feature_part = strs(facts@);
    let mut j: usize = 0;
    while j < n.deps.len()
        invariant
            0 <= j <= n.deps@.len(),
            sorted(facts@),
            strs(facts@) == feature_part + Set::new(
                |f: Seq<char>| exists|k: int| 0 <= k < j && #[trigger] edge_facts(n.deps@[k]).contains(f),
            ),
        decreases n.deps@.len() - j,
    {
        let d = &n.deps[j];
        let ghost before = strs(facts@);
        if d.dep_kinds.len() == 0 {
            insert_sorted(&mut facts, make_edge_prefix("D:", d));
            assert(edge_facts(*d) =~= set![bare_edge_fact(*d)]);
        } else {
            let prefix = make_edge_prefix("E:", d);
            let mut l: usize = 0;
            while l < d.dep_kinds.len()
                invariant
                    0 <= l <= d.dep_kinds@.len(),
                    d.dep_kinds@.len() > 0,
                    prefix@ == "E:"@ + tok(d.name@) + tok(d.pkg@),
                    sorted(facts@),
                    strs(facts@) == before + Set::new(
                        |f: Seq<char>| exists|m: int| 0 <= m < l && f == edge_fact(*d, #[trigger] d.dep_kinds@[m]),
                    ),
                decreases d.dep_kinds@.len() - l,
            {
                let dk = &d.dep_kinds[l];
                let mut fact = prefix.clone();
                push_kind(&mut fact, dk.kind);
                push_platform(&mut fact, &dk.target);
                assert(fact@ =~= edge_fact(*d, *dk));
                insert_sorted(&mut facts, fact);
                assert(strs(facts@) =~= before + Set::new(
                    |f: Seq<char>| exists|m: int| 0 <= m < l + 1 && f == edge_fact(*d, #[trigger] d.dep_kinds@[m]),
                ));
                l = l + 1;
            }
            assert(edge_facts(*d) =~= Set::new(
                |f: Seq<char>| exists|m: int| 0 <= m < d.dep_kinds@.len() && f == edge_fact(*d, #[trigger] d.dep_kinds@[m]),
            ));
        }
        assert(strs(facts@) =~= feature_part + Set::new(
            |f: Seq<char>| exists|k: int| 0 <= k < j + 1 && #[trigger] edge_facts(n.deps@[k]).contains(f),
        )) by {
            assert(n.deps@[j as int] == *d);
            let full = feature_part + Set::new(
                |f: Seq<char>| exists|k: int| 0 <= k < j + 1 && #[trigger] edge_facts(n.deps@[k]).contains(f),
            );
            assert forall|f: Seq<char>| #[trigger] strs(facts@).contains(f) <==> full.contains(f) by {
                if edge_facts(*d).contains(f) {
                    assert(edge_facts(n.deps@[j as int]).contains(f));
                }
                if exists|k: int| 0 <= k < j + 1 && #[trigger] edge_facts(n.deps@[k]).contains(f) {
                    let k = choose|k: int| 0 <= k < j + 1 && #[trigger] edge_facts(n.deps@[k]).contains(f);
                    if k < j {
                        assert(before.contains(f));
                    }
                }
            }
        }
        j = j + 1;
    }
    assert(strs(facts@) =~= node_facts(*n));
    facts
}

/// The facts in UTF-8, each followed by `0xFF`.
fn encode_facts(facts: &Vec<String>) -> (r: Vec<u8>)
    ensures
        r@ == bytes_of(views(facts@)),
{
    let ghost vs = views(facts@);
    let mut out: Vec<u8> = Vec::new();
    let mut i: usize = 0;
    assert(vs.subrange(0, 0) =~= Seq::<Seq<char>>::empty());
    while i < facts.len()
        invariant
            0 <= i <= facts@.len(),
            vs == views(facts@),
            out@ == bytes_of(vs.subrange(0, i as int)),
        decreases facts@.len() - i,
    {
        let b = facts[i].as_str().as_bytes();
        let ghost start = out@;
        let mut k: usize = 0;
        while k < b.len()
            invariant
                0 <= k <= b@.len(),
                out@ == start + b@.subrange(0, k as int),
            decreases b@.len() - k,
        {
            out.push(b[k]);
            assert(out@ =~= start + b@.subrange(0, k + 1));
            k = k + 1;
        }
        assert(b@.subrange(0, b@.len() as int) =~= b@);
        out.push(0xFFu8);
        let ghost post = vs.subrange(0, i + 1);
        assert(post.drop_last() =~= vs.subrange(0, i as int));
        assert(post.last() == facts@[i as int]@);
        assert(out@ =~= bytes_of(post));
        i = i + 1;
    }
    assert(vs.subrange(0, vs.len() as int) =~= vs);
    out
}

/// The sorted facts of a node, as strings, are the facts that its
/// fingerprint hashes.
proof fn lemma_facts_canonical(n: Node, facts: Seq<String>)
    requires
        sorted(facts),
        strs(facts) == node_facts(n),
    ensures
        views(facts) == sorted_facts(n),
{
    let v = views(facts);
    assert(sorted_views(v));
    assert(v.to_set() =~= node_facts(n)) by {
        assert forall|f: Seq<char>| v.to_set().contains(f) implies strs(facts).contains(f) by {
            let i = choose|i: int| 0 <= i < v.len() && v[i] == f;
            assert(facts[i]@ == f);
        }
        assert forall|f: Seq<char>| strs(facts).contains(f) implies v.to_set().contains(f) by {
            let i = choose|i: int| 0 <= i < facts.len() && facts[i]@ == f;
            assert(v[i] == f);
        }
    }
    let c = sorted_facts(n);
    assert(sorted_views(c) && c.to_set() == node_facts(n));
    lemma_sorted_unique(v, c);
}

impl BuckalExt for Node {
    open spec fn fingerprint_spec(&self) -> Seq<u8> {
        blake3_of(digest_input(*self))
    }

    fn fingerprint(&self) -> (r: Fingerprint) {
        let facts = collect_facts(self);
        let bytes = encode_facts(&facts);
        proof {
            lemma_facts_canonical(*self, facts@);
        }
        blake3_digest(bytes.as_slice())
    }
}

proof fn lemma_byte_not_ff(x: u32)
    ensures
        (x & 0x7F) as u8 != 0xFFu8,
        0xC0u8 | ((x >> 6) & 0x1F) as u8 != 0xFFu8,
        0xE0u8 | ((x >> 12) & 0x0F) as u8 != 0xFFu8,
        0xF0u8 | ((x >> 18) & 0x7) as u8 != 0xFFu8,
        0x80u8 | (x & 0x3F) as u8 != 0xFFu8,
        0x80u8 | ((x >> 6) & 0x3F) as u8 != 0xFFu8,
        0x80u8 | ((x >> 12) & 0x3F) as u8 != 0xFFu8,
{
    assert((x & 0x7F) as u8 != 0xFFu8) by (bit_vector);
    assert(0xC0u8 | ((x >> 6) & 0x1F) as u8 != 0xFFu8) by (bit_vector);
    assert(0xE0u8 | ((x >> 12) & 0x0F) as u8 != 0xFFu8) by (bit_vector);
    assert(0xF0u8 | ((x >> 18) & 0x7) as u8 != 0xFFu8) by (bit_vector);
    assert(0x80u8 | (x & 0x3F) as u8 != 0xFFu8) by (bit_vector);
    assert(0x80u8 | ((x >> 6) & 0x3F) as u8 != 0xFFu8) by (bit_vector);
    assert(0x80u8 | ((x >> 12) & 0x3F) as u8 != 0xFFu8) by (bit_vector);
}

/// UTF-8 never uses the byte `0xFF`.
proof fn lemma_utf8_no_ff(c: Seq<char>)
    ensures
        forall|i: int| 0 <= i < encode_utf8(c).len() ==> encode_utf8(c)[i] != 0xFFu8,
    decreases c.len(),
{
    if c.len() > 0 {
        lemma_utf8_no_ff(c.drop_first());
        lemma_byte_not_ff(c[0] as u32);
        let e = encode_scalar(c[0] as u32);
        assert(forall|i: int| 0 <= i < e.len() ==> e[i] != 0xFFu8);
        let rest = encode_utf8(c.drop_first());
        assert forall|i: int| 0 <= i < encode_utf8(c).len() implies encode_utf8(c)[i] != 0xFFu8 by {
            if i < e.len() {
                assert(encode_utf8(c)[i] == e[i]);
            } else {
                assert(encode_utf8(c)[i] == rest[i - e.len()]);
            }
        }
    }
}

/// The encoding of a list of strings determines the list.
proof fn lemma_bytes_of_injective(a: Seq<Seq<char>>, b: Seq<Seq<char>>)
    requires
        bytes_of(a) == bytes_of(b),
    ensures
        a == b,
    decreases a.len(),
{
    if a.len() == 0 || b.len() == 0 {
        if a.len() > 0 {
            assert(bytes_of(a).len() > 0);
        }
        if b.len() > 0 {
            assert(bytes_of(b).len() > 0);
        }
        assert(a =~= b);
    } else {
        let pa = bytes_of(a.drop_last());
        let pb = bytes_of(b.drop_last());
        let ea = encode_utf8(a.last());
        let eb = encode_utf8(b.last());
        lemma_utf8_no_ff(a.last());
        lemma_utf8_no_ff(b.last());
        lemma_bytes_of_ends_ff(a.drop_last());
        lemma_bytes_of_ends_ff(b.drop_last());
        let x = bytes_of(a);
        assert(x == pa + ea + seq![0xFFu8]);
        assert(x == pb + eb + seq![0xFFu8]);
        let y = pa + ea;
        assert(y =~= x.drop_last());
        assert(pb + eb =~= x.drop_last());
        if ea.len() < eb.len() {
            let k = y.len() - ea.len() - 1;
            assert(pa.len() > 0);
            assert(y[k] == pa[pa.len() - 1]);
            assert((pb + eb)[k] == eb[k - pb.len()]);
        } else if eb.len() < ea.len() {
            let k = y.len() - eb.len() - 1;
            assert(pb.len() > 0);
            assert((pb + eb)[k] == pb[pb.len() - 1]);
            assert(y[k] == ea[k - pa.len()]);
        }
        assert(ea =~= y.subrange(pa.len() as int, y.len() as int));
        assert(eb =~= y.subrange(pb.len() as int, y.len() as int));
        assert(pa =~= y.subrange(0, pa.len() as int));
        assert(pb =~= y.subrange(0, pb.len() as int));
        encode_utf8_decode_utf8(a.last());
        encode_utf8_decode_utf8(b.last());
        lemma_bytes_of_injective(a.drop_last(), b.drop_last());
        assert(a =~= a.drop_last().push(a.last()));
        assert(b =~= b.drop_last().push(b.last()));
    }
}

proof fn lemma_bytes_of_ends_ff(a: Seq<Seq<char>>)
    ensures
        bytes_of(a).len() > 0 ==> bytes_of(a)[bytes_of(a).len() - 1] == 0xFFu8,
        a.len() > 0 ==> bytes_of(a).len() > 0,
{
}

/// Listing a node's features and edges in another order, or listing one of
/// them twice, leaves its fingerprint unchanged: the fingerprint depends on
/// the id, the set of features and the set of edge facts alone.
#[verifier::rlimit(50)]
pub proof fn lemma_fingerprint_order_independent(a: Node, b: Node)
    requires
        a.id@ == b.id@,
        strs(a.features@) == strs(b.features@),
        forall|i: int|
            0 <= i < a.deps@.len() ==> exists|j: int|
                0 <= j < b.deps@.len() && edge_facts(b.deps@[j]) == edge_facts(#[trigger] a.deps@[i]),
        forall|j: int|
            0 <= j < b.deps@.len() ==> exists|i: int|
                0 <= i < a.deps@.len() && edge_facts(a.deps@[i]) == edge_facts(#[trigger] b.deps@[j]),
    ensures
        a.fingerprint_spec() == b.fingerprint_spec(),
{
    assert forall|f: Seq<char>| node_facts(a).contains(f) <==> node_facts(b).contains(f) by {
        if exists|i: int| 0 <= i < a.features@.len() && f == "F:"@ + #[trigger] a.features@[i]@ {
            let i = choose|i: int| 0 <= i < a.features@.len() && f == "F:"@ + #[trigger] a.features@[i]@;
            assert(strs(a.features@).contains(a.features@[i]@));
            let j = choose|j: int| 0 <= j < b.features@.len() && b.features@[j]@ == a.features@[i]@;
            assert(f == "F:"@ + b.features@[j]@);
        }
        if exists|i: int| 0 <= i < b.features@.len() && f == "F:"@ + #[trigger] b.features@[i]@ {
            let i = choose|i: int| 0 <= i < b.features@.len() && f == "F:"@ + #[trigger] b.features@[i]@;
            assert(strs(b.features@).contains(b.features@[i]@));
            let j = choose|j: int| 0 <= j < a.features@.len() && a.features@[j]@ == b.features@[i]@;
            assert(f == "F:"@ + a.features@[j]@);
        }
        if exists|i: int| 0 <= i < a.deps@.len() && #[trigger] edge_facts(a.deps@[i]).contains(f) {
            let i = choose|i: int| 0 <= i < a.deps@.len() && #[trigger] edge_facts(a.deps@[i]).contains(f);
            let j = choose|j: int| 0 <= j < b.deps@.len() && edge_facts(b.deps@[j]) == edge_facts(a.deps@[i]);
            assert(edge_facts(b.deps@[j]).contains(f));
        }
        if exists|i: int| 0 <= i < b.deps@.len() && #[trigger] edge_facts(b.deps@[i]).contains(f) {
            let i = choose|i: int| 0 <= i < b.deps@.len() && #[trigger] edge_facts(b.deps@[i]).contains(f);
            let j = choose|j: int| 0 <= j < a.deps@.len() && edge_facts(a.deps@[j]) == edge_facts(b.deps@[i]);
            assert(edge_facts(a.deps@[j]).contains(f));
        }
    }
    assert(node_facts(a) =~= node_facts(b));
}

/// A node whose feature set changes gets another set of facts, and so its
/// fingerprint hashes other bytes.
pub proof fn lemma_features_change_facts(a: Node, b: Node)
    requires
        strs(a.features@) != strs(b.features@),
    ensures
        node_facts(a) != node_facts(b),
        digest_input(a) != digest_input(b),
{
    reveal_strlit("F:");
    reveal_strlit("I:");
    reveal_strlit("E:");
    reveal_strlit("D:");
    let (x, y) = if !strs(a.features@).subset_of(strs(b.features@)) {
        (a, b)
    } else {
        assert(!strs(b.features@).subset_of(strs(a.features@))) by {
            if strs(b.features@).subset_of(strs(a.features@)) {
                assert(strs(a.features@) =~= strs(b.features@));
            }
        }
        (b, a)
    };
    let g = choose|g: Seq<char>| strs(x.features@).contains(g) && !strs(y.features@).contains(g);
    let i = choose|i: int| 0 <= i < x.features@.len() && x.features@[i]@ == g;
    let f = "F:"@ + g;
    assert(node_facts(x).contains(f));
    assert(f[0] == 'F');
    assert(!node_facts(y).contains(f)) by {
        if f == "I:"@ + y.id@ {
            assert(("I:"@ + y.id@)[0] == 'I');
        }
        if exists|k: int| 0 <= k < y.features@.len() && f == "F:"@ + #[trigger] y.features@[k]@ {
            let k = choose|k: int| 0 <= k < y.features@.len() && f == "F:"@ + #[trigger] y.features@[k]@;
            assert(g =~= f.subrange(2, f.len() as int));
            assert(y.features@[k]@ =~= f.subrange(2, f.len() as int));
        }
        if exists|k: int| 0 <= k < y.deps@.len() && #[trigger] edge_facts(y.deps@[k]).contains(f) {
            let k = choose|k: int| 0 <= k < y.deps@.len() && #[trigger] edge_facts(y.deps@[k]).contains(f);
            let d = y.deps@[k];
            if d.dep_kinds@.len() == 0 && f == bare_edge_fact(d) {
                assert(bare_edge_fact(d)[0] == 'D');
            } else {
                let j = choose|j: int| 0 <= j < d.dep_kinds@.len() && f == edge_fact(d, #[trigger] d.dep_kinds@[j]);
                assert(edge_fact(d, d.dep_kinds@[j])[0] == 'E');
            }
        }
    }
    lemma_fingerprint_input_sensitive(a, b);
}

/// The facts of the first `k` edges of `ds`.
spec fn edge_facts_upto(ds: Seq<NodeDep>, k: int) -> Set<Seq<char>> {
    Set::new(|f: Seq<char>| exists|i: int| 0 <= i < k && #[trigger] edge_facts(ds[i]).contains(f))
}

proof fn lemma_edge_facts_finite(d: NodeDep)
    ensures
        edge_facts(d).finite(),
{
    let kinds = Seq::new(d.dep_kinds@.len(), |j: int| edge_fact(d, d.dep_kinds@[j]));
    vstd::seq_lib::seq_to_set_is_finite(kinds);
    let all = kinds.to_set().insert(bare_edge_fact(d));
    assert(edge_facts(d).subset_of(all)) by {
        assert forall|f: Seq<char>| edge_facts(d).contains(f) implies all.contains(f) by {
            if exists|j: int| 0 <= j < d.dep_kinds@.len() && f == edge_fact(d, #[trigger] d.dep_kinds@[j]) {
                let j = choose|j: int| 0 <= j < d.dep_kinds@.len() && f == edge_fact(d, #[trigger] d.dep_kinds@[j]);
                assert(kinds[j] == f);
            }
        }
    }
    vstd::set_lib::lemma_set_subset_finite(all, edge_facts(d));
}

proof fn lemma_edge_facts_upto_finite(ds: Seq<NodeDep>, k: int)
    requires
        0 <= k <= ds.len(),
    ensures
        edge_facts_upto(ds, k).finite(),
    decreases k,
{
    if k == 0 {
        assert(edge_facts_upto(ds, k) =~= Set::<Seq<char>>::empty());
    } else {
        lemma_edge_facts_upto_finite(ds, k - 1);
        lemma_edge_facts_finite(ds[k - 1]);
        assert(edge_facts_upto(ds, k) =~= edge_facts_upto(ds, k - 1).union(edge_facts(ds[k - 1])));
    }
}

/// A node has finitely many facts.
proof fn lemma_node_facts_finite(n: Node)
    ensures
        node_facts(n).finite(),
{
    let feats = Seq::new(n.features@.len(), |i: int| "F:"@ + n.features@[i]@);
    vstd::seq_lib::seq_to_set_is_finite(feats);
    lemma_edge_facts_upto_finite(n.deps@, n.deps@.len() as int);
    let all = feats.to_set().union(edge_facts_upto(n.deps@, n.deps@.len() as int)).insert("I:"@ + n.id@);
    assert(node_facts(n).subset_of(all)) by {
        assert forall|f: Seq<char>| node_facts(n).contains(f) implies all.contains(f) by {
            if exists|i: int| 0 <= i < n.features@.len() && f == "F:"@ + #[trigger] n.features@[i]@ {
                let i = choose|i: int| 0 <= i < n.features@.len() && f == "F:"@ + #[trigger] n.features@[i]@;
                assert(feats[i] == f);
            }
        }
    }
    vstd::set_lib::lemma_set_subset_finite(all, node_facts(n));
}

/// The sorted facts of a node are its facts, in sorted order.
proof fn lemma_sorted_facts(n: Node)
    ensures
        sorted_views(sorted_facts(n)),
        sorted_facts(n).to_set() == node_facts(n),
{
    lemma_node_facts_finite(n);
    lemma_sorted_exists(node_facts(n));
}

/// Nodes with different facts hash different bytes: the input of the
/// fingerprint's hash determines the node's facts.
pub proof fn lemma_fingerprint_input_sensitive(a: Node, b: Node)
    requires
        node_facts(a) != node_facts(b),
    ensures
        digest_input(a) != digest_input(b),
{
    lemma_sorted_facts(a);
    lemma_sorted_facts(b);
    if digest_input(a) == digest_input(b) {
        lemma_bytes_of_injective(sorted_facts(a), sorted_facts(b));
    }
}

/// A node that gains an edge fact that none of its old edges had (an added
/// edge, or an edge with a new kind or platform) gets another set of facts.
pub proof fn lemma_edges_change_facts(a: Node, b: Node, f: Seq<char>)
    requires
        exists|k: int| 0 <= k < b.deps@.len() && #[trigger] edge_facts(b.deps@[k]).contains(f),
        forall|k: int| 0 <= k < a.deps@.len() ==> !(#[trigger] edge_facts(a.deps@[k]).contains(f)),
    ensures
        node_facts(a) != node_facts(b),
{
    reveal_strlit("F:");
    reveal_strlit("I:");
    reveal_strlit("E:");
    reveal_strlit("D:");
    let k = choose|k: int| 0 <= k < b.deps@.len() && #[trigger] edge_facts(b.deps@[k]).contains(f);
    let d = b.deps@[k];
    assert(node_facts(b).contains(f));
    assert(f[0] == 'E' || f[0] == 'D') by {
        if !(d.dep_kinds@.len() == 0 && f == bare_edge_fact(d)) {
            let j = choose|j: int| 0 <= j < d.dep_kinds@.len() && f == edge_fact(d, #[trigger] d.dep_kinds@[j]);
        }
    }
    assert(!node_facts(a).contains(f)) by {
        if f == "I:"@ + a.id@ {
            assert(("I:"@ + a.id@)[0] == 'I');
        }
        if exists|i: int| 0 <= i < a.features@.len() && f == "F:"@ + #[trigger] a.features@[i]@ {
            let i = choose|i: int| 0 <= i < a.features@.len() && f == "F:"@ + #[trigger] a.features@[i]@;
            assert(("F:"@ + a.features@[i]@)[0] == 'F');
        }
    }
}

/// An edge fact determines the edge's name and package, the kind, and the
/// platform restriction it was made from.
pub proof fn lemma_edge_fact_injective(d1: NodeDep, k1: DepKindInfo, d2: NodeDep, k2: DepKindInfo)
    requires
        edge_fact(d1, k1) == edge_fact(d2, k2),
    ensures
        d1.name@ == d2.name@,
        d1.pkg@ == d2.pkg@,
        k1.kind == k2.kind,
        same_platform(k1.target, k2.target),
{
    reveal_strlit("E:");
    let f = edge_fact(d1, k1);
    let t = f.subrange(2, f.len() as int);
    let r1 = tok(d1.pkg@) + seq![kind_tag(k1.kind)] + platform_enc(k1.target);
    let r2 = tok(d2.pkg@) + seq![kind_tag(k2.kind)] + platform_enc(k2.target);
    assert(t =~= tok(d1.name@) + r1);
    assert(t =~= tok(d2.name@) + r2);
    lemma_tok_split(d1.name@, d2.name@, r1, r2);
    let q1 = seq![kind_tag(k1.kind)] + platform_enc(k1.target);
    let q2 = seq![kind_tag(k2.kind)] + platform_enc(k2.target);
    assert(r1 =~= tok(d1.pkg@) + q1);
    assert(r2 =~= tok(d2.pkg@) + q2);
    lemma_tok_split(d1.pkg@, d2.pkg@, q1, q2);
    assert(q1[0] == q2[0]);
    assert(kind_tag(k1.kind) == kind_tag(k2.kind));
    assert(q1.subrange(1, q1.len() as int) =~= platform_enc(k1.target));
    assert(q2.subrange(1, q2.len() as int) =~= platform_enc(k2.target));
    lemma_platform_enc_injective(k1.target, k2.target);
}

/// A fact that two edges both contribute names the same edge: the same name
/// and the same package.
pub proof fn lemma_edge_facts_identify(d1: NodeDep, d2: NodeDep, f: Seq<char>)
    requires
        edge_facts(d1).contains(f),
        edge_facts(d2).contains(f),
    ensures
        d1.name@ == d2.name@,
        d1.pkg@ == d2.pkg@,
{
    reveal_strlit("E:");
    reveal_strlit("D:");
    let bare1 = d1.dep_kinds@.len() == 0 && f == bare_edge_fact(d1);
    let bare2 = d2.dep_kinds@.len() == 0 && f == bare_edge_fact(d2);
    if bare1 && bare2 {
        let t = f.subrange(2, f.len() as int);
        assert(t =~= tok(d1.name@) + tok(d1.pkg@));
        assert(t =~= tok(d2.name@) + tok(d2.pkg@));
        lemma_tok_split(d1.name@, d2.name@, tok(d1.pkg@), tok(d2.pkg@));
        assert(tok(d1.pkg@) + Seq::<char>::empty() =~= tok(d2.pkg@) + Seq::<char>::empty());
        lemma_tok_split(d1.pkg@, d2.pkg@, Seq::empty(), Seq::empty());
    } else if !bare1 && !bare2 {
        let j1 = choose|j: int| 0 <= j < d1.dep_kinds@.len() && f == edge_fact(d1, #[trigger] d1.dep_kinds@[j]);
        let j2 = choose|j: int| 0 <= j < d2.dep_kinds@.len() && f == edge_fact(d2, #[trigger] d2.dep_kinds@[j]);
        lemma_edge_fact_injective(d1, d1.dep_kinds@[j1], d2, d2.dep_kinds@[j2]);
    } else if bare1 {
        let j2 = choose|j: int| 0 <= j < d2.dep_kinds@.len() && f == edge_fact(d2, #[trigger] d2.dep_kinds@[j]);
        assert(bare_edge_fact(d1)[0] == 'D');
        assert(edge_fact(d2, d2.dep_kinds@[j2])[0] == 'E');
    } else {
        let j1 = choose|j: int| 0 <= j < d1.dep_kinds@.len() && f == edge_fact(d1, #[trigger] d1.dep_kinds@[j]);
        assert(bare_edge_fact(d2)[0] == 'D');
        assert(edge_fact(d1, d1.dep_kinds@[j1])[0] == 'E');
    }
}

/// Adding an edge whose name and package no edge of the node had changes the
/// input of the node's fingerprint; read with `a` and `b` swapped, so does
/// removing one.
pub proof fn lemma_new_edge_changes_input(a: Node, b: Node, k: int)
    requires
        0 <= k < b.deps@.len(),
        forall|i: int|
            0 <= i < a.deps@.len() ==> !((#[trigger] a.deps@[i]).name@ == b.deps@[k].name@
                && a.deps@[i].pkg@ == b.deps@[k].pkg@),
    ensures
        node_facts(a) != node_facts(b),
        digest_input(a) != digest_input(b),
{
    let d = b.deps@[k];
    let f = if d.dep_kinds@.len() == 0 {
        bare_edge_fact(d)
    } else {
        edge_fact(d, d.dep_kinds@[0])
    };
    assert(edge_facts(d).contains(f));
    assert forall|i: int| 0 <= i < a.deps@.len() implies !(#[trigger] edge_facts(a.deps@[i]).contains(f)) by {
        if edge_facts(a.deps@[i]).contains(f) {
            lemma_edge_facts_identify(a.deps@[i], d, f);
        }
    }
    lemma_edges_change_facts(a, b, f);
    lemma_fingerprint_input_sensitive(a, b);
}

/// Giving an edge a kind, with a platform restriction, that no edge of the
/// same name and package had changes the input of the node's fingerprint;
/// read with `a` and `b` swapped, so does taking one away. Changing the kind
/// or the platform of an edge does both.
pub proof fn lemma_edge_kinds_change_input(a: Node, b: Node, k: int, j: int)
    requires
        0 <= k < b.deps@.len(),
        0 <= j < b.deps@[k].dep_kinds@.len(),
        forall|i: int, m: int|
            0 <= i < a.deps@.len() && 0 <= m < a.deps@[i].dep_kinds@.len() && (#[trigger] a.deps@[i]).name@
                == b.deps@[k].name@ && a.deps@[i].pkg@ == b.deps@[k].pkg@ ==> !(
            (#[trigger] a.deps@[i].dep_kinds@[m]).kind == b.deps@[k].dep_kinds@[j].kind && same_platform(
                a.deps@[i].dep_kinds@[m].target,
                b.deps@[k].dep_kinds@[j].target,
            )),
    ensures
        node_facts(a) != node_facts(b),
        digest_input(a) != digest_input(b),
{
    reveal_strlit("E:");
    reveal_strlit("D:");
    let d = b.deps@[k];
    let dk = d.dep_kinds@[j];
    let f = edge_fact(d, dk);
    assert(edge_facts(d).contains(f));
    assert forall|i: int| 0 <= i < a.deps@.len() implies !(#[trigger] edge_facts(a.deps@[i]).contains(f)) by {
        let e = a.deps@[i];
        if edge_facts(e).contains(f) {
            if e.dep_kinds@.len() == 0 && f == bare_edge_fact(e) {
                assert(bare_edge_fact(e)[0] == 'D');
                assert(f[0] == 'E');
            } else {
                let m = choose|m: int| 0 <= m < e.dep_kinds@.len() && f == edge_fact(e, #[trigger] e.dep_kinds@[m]);
                lemma_edge_fact_injective(e, e.dep_kinds@[m], d, dk);
                assert(a.deps@[i].dep_kinds@[m] == e.dep_kinds@[m]);
            }
        }
    }
    lemma_edges_change_facts(a, b, f);
    lemma_fingerprint_input_sensitive(a, b);
}

} // verus!
