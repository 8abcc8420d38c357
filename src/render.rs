//! Framing of a rendered build file: the marker comment, the load
//! directives, then the rule records one after another.
use vstd::prelude::*;
use crate::rules::Load;
use crate::strset::{insert_str, strs};

verus! {

/// The comment that opens every emitted build file.
pub open spec fn marker() -> Seq<char> {
    "# @generated by `cargo buckal`\n\n"@
}

/// The texts of `parts` one after another.
pub open spec fn concat_all(parts: Seq<String>) -> Seq<char>
    decreases parts.len(),
{
    if parts.len() == 0 {
        Seq::empty()
    } else {
        concat_all(parts.drop_last()) + parts.last()@
    }
}

/// The texts of `parts` with a newline between each two.
pub open spec fn join_lines(parts: Seq<String>) -> Seq<char>
    decreases parts.len(),
{
    if parts.len() == 0 {
        Seq::empty()
    } else if parts.len() == 1 {
        parts[0]@
    } else {
        join_lines(parts.drop_last()) + "\n"@ + parts.last()@
    }
}

/// The whole text of a build file, from the rendered load directives and
/// the rendered rules.
pub open spec fn buck_content(loads: Seq<String>, rules: Seq<String>) -> Seq<char> {
    marker() + concat_all(loads) + "\n"@ + join_lines(rules)
}

/// Frames the rendered load directives and rules into a build file.
pub fn gen_buck_content(loads: &Vec<String>, rules: &Vec<String>) -> (r: String)
    ensures
        r@ == buck_content(loads@, rules@),
{
    let mut content = String::from_str("# @generated by `cargo buckal`\n\n");
    let ghost head = content@;
    let mut i: usize = 0;
    while i < loads.len()
        invariant
            0 <= i <= loads@.len(),
            content@ == head + concat_all(loads@.subrange(0, i as int)),
        decreases loads@.len() - i,
    {
        let ghost post = loads@.subrange(0, i + 1);
        assert(post.drop_last() =~= loads@.subrange(0, i as int));
        content.append(loads[i].as_str());
        i = i + 1;
    }
    assert(loads@.subrange(0, loads@.len() as int) =~= loads@);
    content.append("\n");
    let ghost mid = content@;
    let mut j: usize = 0;
    while j < rules.len()
        invariant
            0 <= j <= rules@.len(),
            content@ == mid + join_lines(rules@.subrange(0, j as int)),
        decreases rules@.len() - j,
    {
        let ghost post = rules@.subrange(0, j + 1);
        assert(post.drop_last() =~= rules@.subrange(0, j as int));
        if j > 0 {
            content.append("\n");
        }
        content.append(rules[j].as_str());
        assert(content@ =~= mid + join_lines(post));
        j = j + 1;
    }
    assert(rules@.subrange(0, rules@.len() as int) =~= rules@);
    content
}

/// The load directives that open every build file: the manifest shim rule
/// and the wrapped compile and run rules.
pub fn default_loads() -> (r: Vec<Load>)
    ensures
        r@.len() == 2,
        r@[0].bzl@ == "@buckal//:cargo_manifest.bzl"@,
        r@[0].wf(),
        strs(r@[0].items@) == set!["cargo_manifest"@],
        r@[1].bzl@ == "@buckal//:wrapper.bzl"@,
        r@[1].wf(),
        strs(r@[1].items@) == set!["buildscript_run"@, "rust_binary"@, "rust_library"@],
{
    let mut manifest_items: Vec<String> = Vec::new();
    assert(strs(manifest_items@) =~= Set::<Seq<char>>::empty());
    insert_str(&mut manifest_items, String::from_str("cargo_manifest"));
    assert(strs(manifest_items@) =~= set!["cargo_manifest"@]);
    let mut wrapper_items: Vec<String> = Vec::new();
    assert(strs(wrapper_items@) =~= Set::<Seq<char>>::empty());
    insert_str(&mut wrapper_items, String::from_str("buildscript_run"));
    insert_str(&mut wrapper_items, String::from_str("rust_binary"));
    insert_str(&mut wrapper_items, String::from_str("rust_library"));
    assert(strs(wrapper_items@) =~= set!["buildscript_run"@, "rust_binary"@, "rust_library"@]);
    let mut r: Vec<Load> = Vec::new();
    r.push(Load { bzl: String::from_str("@buckal//:cargo_manifest.bzl"), items: manifest_items });
    r.push(Load { bzl: String::from_str("@buckal//:wrapper.bzl"), items: wrapper_items });
    r
}

} // verus!
