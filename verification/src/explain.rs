//! The explanation of each rule.
use vstd::prelude::*;

use crate::error::ShedError;
use crate::project::Project;
use crate::rules::{issues_of, law_issues_name_registered_rules, sort_issues, spec_registry};
use crate::text::{owned, str_eq};

verus! {

pub const TOKIO_FULL_TEXT: &'static str =
    "tokio-full\n\nDetects tokio dependencies that enable the full feature set. cargo-shed reports this because full often pulls in more compile-time cost than the project actually needs. The safe fix replaces full only when source usage gives enough evidence for a smaller feature set.";

pub const REQWEST_DEFAULT_FEATURES_TEXT: &'static str =
    "reqwest-default-features\n\nDetects reqwest dependencies that keep default features enabled. This can be totally fine, but it often means TLS and platform behavior were accepted by accident. cargo-shed reports it carefully and does not auto-fix it by default.";

pub const UNUSED_DEPENDENCY_TEXT: &'static str =
    "unused-dependency\n\nDetects declared dependencies that do not appear in scanned Rust source files. This is heuristic, so cargo-shed only removes simple non-optional normal and dev dependencies when the source scan is unambiguous.";

pub const DUPLICATE_VERSIONS_TEXT: &'static str =
    "duplicate-versions\n\nDetects multiple versions of the same crate in Cargo.lock. These duplicates can increase compile time and binary size, especially around proc macro, TLS, async, and serialization crates.";

pub const HEAVY_CRATE_TEXT: &'static str =
    "heavy-crate\n\nDetects dependencies that are often expensive to compile. This is not a judgment that the crate is bad. It is a small nudge to check whether the cost is intentional.";

/// The explanation of the rule `rule_id`, if there is such a rule.
pub open spec fn explanation(rule_id: Seq<char>) -> Option<Seq<char>> {
    if rule_id == "tokio-full"@ {
        Some(TOKIO_FULL_TEXT@)
    } else if rule_id == "reqwest-default-features"@ {
        Some(REQWEST_DEFAULT_FEATURES_TEXT@)
    } else if rule_id == "unused-dependency"@ {
        Some(UNUSED_DEPENDENCY_TEXT@)
    } else if rule_id == "duplicate-versions"@ {
        Some(DUPLICATE_VERSIONS_TEXT@)
    } else if rule_id == "heavy-crate"@ {
        Some(HEAVY_CRATE_TEXT@)
    } else {
        None
    }
}

/// The explanation of a rule; an unknown id is an error.
pub fn rule(rule_id: &str) -> (r: Result<&'static str, ShedError>)
    ensures
        match r {
            Ok(text) => explanation(rule_id@) == Some(text@),
            Err(e) => explanation(rule_id@) is None && (e matches ShedError::UnknownRule {
                rule_id: id,
            } && id@ == rule_id@),
        },
{
    if str_eq(rule_id, "tokio-full") {
        Ok(TOKIO_FULL_TEXT)
    } else if str_eq(rule_id, "reqwest-default-features") {
        Ok(REQWEST_DEFAULT_FEATURES_TEXT)
    } else if str_eq(rule_id, "unused-dependency") {
        Ok(UNUSED_DEPENDENCY_TEXT)
    } else if str_eq(rule_id, "duplicate-versions") {
        Ok(DUPLICATE_VERSIONS_TEXT)
    } else if str_eq(rule_id, "heavy-crate") {
        Ok(HEAVY_CRATE_TEXT)
    } else {
        Err(ShedError::UnknownRule { rule_id: owned(rule_id) })
    }
}

/// Every rule the registry runs has an explanation.
pub proof fn law_registered_rules_explained()
    ensures
        forall|k: int|
            0 <= k < spec_registry().len() ==> explanation(
                (#[trigger] spec_registry()[k]).spec_id(),
            ) is Some,
{
}

/// Every issue a report lists can be explained: `explain` knows its rule.
pub proof fn law_reported_rules_explained(p: Project)
    ensures
        forall|i: int|
            0 <= i < sort_issues(issues_of(spec_registry(), p)).len() ==> explanation(
                (#[trigger] sort_issues(issues_of(spec_registry(), p))[i]).rule_id,
            ) is Some,
{
    law_issues_name_registered_rules(p);
    law_registered_rules_explained();
}

} // verus!
