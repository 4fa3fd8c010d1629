//! The analysis policies the JSON owner analysis serves.
use crate::operation::AnalyzePolicy;
use crate::text::str_eq;
use vstd::prelude::*;

verus! {

pub open spec fn depth_ok(depth: Option<String>) -> bool {
    match depth {
        Some(d) => d@ == "exact-source-owners"@,
        None => true,
    }
}

/// Exact-source owner analysis that keeps comments, ownership and native
/// extensions, without tokens, and no unknown policy field.
pub open spec fn supports_spec(p: AnalyzePolicy) -> bool {
    &&& p.extra.entries@.len() == 0
    &&& depth_ok(p.analysis_depth)
    &&& p.comments != Some(false)
    &&& p.ownership != Some(false)
    &&& p.native_extensions != Some(false)
    &&& p.tokens != Some(true)
}

pub(crate) fn depth_supported(depth: &Option<String>) -> (r: bool)
    ensures
        r == depth_ok(*depth),
{
    match depth {
        Some(d) => str_eq(d.as_str(), "exact-source-owners"),
        None => true,
    }
}

pub fn supports(policy: &AnalyzePolicy) -> (r: bool)
    ensures
        r == supports_spec(*policy),
{
    policy.extra.is_empty() && depth_supported(&policy.analysis_depth) && policy.comments != Some(false)
        && policy.ownership != Some(false) && policy.native_extensions != Some(false) && policy.tokens != Some(
        true,
    )
}

} // verus!
