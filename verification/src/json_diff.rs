//! The diff policies the JSON owner diff serves.
use crate::json_analysis::{depth_ok, depth_supported};
use crate::operation::DiffPolicy;
use crate::operation_result::string_views;
use crate::text::str_eq;
use vstd::prelude::*;

verus! {

/// Equivalence by exact source only: no rules, or exactly `exact-source`.
pub open spec fn equivalence_ok(rules: Option<Vec<String>>) -> bool {
    match rules {
        Some(v) => v@.len() == 0 || string_views(v@) == seq!["exact-source"@],
        None => true,
    }
}

pub open spec fn supports_spec(p: DiffPolicy) -> bool {
    &&& p.extra.entries@.len() == 0
    &&& depth_ok(p.comparison_profile)
    &&& equivalence_ok(p.equivalence)
}

fn equivalence_supported(rules: &Option<Vec<String>>) -> (r: bool)
    ensures
        r == equivalence_ok(*rules),
{
    match rules {
        Some(v) => {
            if v.len() == 0 {
                return true;
            }
            let r = v.len() == 1 && str_eq(v[0].as_str(), "exact-source");
            proof {
                if r {
                    assert(string_views(v@) =~= seq!["exact-source"@]);
                } else if v@.len() == 1 {
                    assert(string_views(v@)[0] != "exact-source"@);
                } else {
                    assert(string_views(v@).len() != seq!["exact-source"@].len());
                }
            }
            r
        },
        None => true,
    }
}

pub fn supports(policy: &DiffPolicy) -> (r: bool)
    ensures
        r == supports_spec(*policy),
{
    policy.extra.is_empty() && depth_supported(&policy.comparison_profile) && equivalence_supported(
        &policy.equivalence,
    )
}

} // verus!
