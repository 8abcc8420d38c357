//! Turns a resolved package dependency graph into Buck2 rule records,
//! detects which packages changed since the last run, and merges freshly
//! compiled rules with hand-edited ones.

pub mod buckify;
pub mod cache;
pub mod config;
pub mod evaluate;
pub mod fingerprint;
pub mod graph;
pub mod order;
pub mod paths;
pub mod pkgid;
pub mod plan;
pub mod platform;
pub mod predicate;
pub mod registry;
pub mod render;
pub mod rules;
pub mod strset;
